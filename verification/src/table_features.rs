//! Table features: what a table's protocol can ask of its readers and writers.
use vstd::prelude::*;

use crate::table_properties::{TableProperties, TablePropertiesView};
use crate::text::same_text;

verus! {

/// From this version on the reader features of a table are listed by name.
pub const TABLE_FEATURES_MIN_READER_VERSION: i32 = 3;

/// From this version on the writer features of a table are listed by name.
pub const TABLE_FEATURES_MIN_WRITER_VERSION: i32 = 7;

/// The smallest valid reader or writer version.
pub const MIN_VALID_RW_VERSION: i32 = 1;

/// The largest reader version that is supported.
pub const MAX_VALID_READER_VERSION: i32 = 3;

/// The largest writer version that is supported.
pub const MAX_VALID_WRITER_VERSION: i32 = 7;

/// A table property with this prefix names a feature to support.
pub const SET_TABLE_FEATURE_SUPPORTED_PREFIX: &'static str = "delta.feature.";

/// The only value of a table property that names a feature to support.
pub const SET_TABLE_FEATURE_SUPPORTED_VALUE: &'static str = "supported";

/// A feature that a table's protocol can list.
#[derive(Debug, PartialEq, Eq)]
pub enum TableFeature {
    AppendOnly,
    Invariants,
    CheckConstraints,
    ChangeDataFeed,
    GeneratedColumns,
    IdentityColumns,
    InCommitTimestamp,
    RowTracking,
    DomainMetadata,
    IcebergCompatV1,
    IcebergCompatV2,
    ClusteredTable,
    MaterializePartitionColumns,
    CatalogManaged,
    CatalogOwnedPreview,
    ColumnMapping,
    DeletionVectors,
    TimestampWithoutTimezone,
    TypeWidening,
    TypeWideningPreview,
    V2Checkpoint,
    VacuumProtocolCheck,
    VariantType,
    VariantTypePreview,
    VariantShreddingPreview,
    /// A feature that is not known, by its name.
    Unknown(String),
}

/// The mathematical value of a [`TableFeature`].
pub enum FeatureView {
    AppendOnly,
    Invariants,
    CheckConstraints,
    ChangeDataFeed,
    GeneratedColumns,
    IdentityColumns,
    InCommitTimestamp,
    RowTracking,
    DomainMetadata,
    IcebergCompatV1,
    IcebergCompatV2,
    ClusteredTable,
    MaterializePartitionColumns,
    CatalogManaged,
    CatalogOwnedPreview,
    ColumnMapping,
    DeletionVectors,
    TimestampWithoutTimezone,
    TypeWidening,
    TypeWideningPreview,
    V2Checkpoint,
    VacuumProtocolCheck,
    VariantType,
    VariantTypePreview,
    VariantShreddingPreview,
    Unknown(Seq<char>),
}

impl View for TableFeature {
    type V = FeatureView;

    open spec fn view(&self) -> FeatureView {
        match *self {
            TableFeature::AppendOnly => FeatureView::AppendOnly,
            TableFeature::Invariants => FeatureView::Invariants,
            TableFeature::CheckConstraints => FeatureView::CheckConstraints,
            TableFeature::ChangeDataFeed => FeatureView::ChangeDataFeed,
            TableFeature::GeneratedColumns => FeatureView::GeneratedColumns,
            TableFeature::IdentityColumns => FeatureView::IdentityColumns,
            TableFeature::InCommitTimestamp => FeatureView::InCommitTimestamp,
            TableFeature::RowTracking => FeatureView::RowTracking,
            TableFeature::DomainMetadata => FeatureView::DomainMetadata,
            TableFeature::IcebergCompatV1 => FeatureView::IcebergCompatV1,
            TableFeature::IcebergCompatV2 => FeatureView::IcebergCompatV2,
            TableFeature::ClusteredTable => FeatureView::ClusteredTable,
            TableFeature::MaterializePartitionColumns => FeatureView::MaterializePartitionColumns,
            TableFeature::CatalogManaged => FeatureView::CatalogManaged,
            TableFeature::CatalogOwnedPreview => FeatureView::CatalogOwnedPreview,
            TableFeature::ColumnMapping => FeatureView::ColumnMapping,
            TableFeature::DeletionVectors => FeatureView::DeletionVectors,
            TableFeature::TimestampWithoutTimezone => FeatureView::TimestampWithoutTimezone,
            TableFeature::TypeWidening => FeatureView::TypeWidening,
            TableFeature::TypeWideningPreview => FeatureView::TypeWideningPreview,
            TableFeature::V2Checkpoint => FeatureView::V2Checkpoint,
            TableFeature::VacuumProtocolCheck => FeatureView::VacuumProtocolCheck,
            TableFeature::VariantType => FeatureView::VariantType,
            TableFeature::VariantTypePreview => FeatureView::VariantTypePreview,
            TableFeature::VariantShreddingPreview => FeatureView::VariantShreddingPreview,
            TableFeature::Unknown(s) => FeatureView::Unknown(s@),
        }
    }
}

/// The values of a list of features.
pub open spec fn features_view(s: Seq<TableFeature>) -> Seq<FeatureView> {
    Seq::new(s.len(), |i: int| s[i]@)
}

/// The values of an optional list of features.
pub open spec fn opt_features(s: Option<Vec<TableFeature>>) -> Option<Seq<FeatureView>> {
    match s {
        Some(v) => Some(features_view(v@)),
        None => None,
    }
}

/// Who has to understand a feature.
#[derive(Debug, Clone, Copy, PartialEq, Eq, Structural)]
pub enum FeatureType {
    /// Writers only.
    WriterOnly,
    /// Readers and writers.
    ReaderWriter,
    /// Not known.
    Unknown,
}

/// The operations that a table may have to support.
#[derive(Debug, Clone, Copy, PartialEq, Eq, Structural)]
pub enum Operation {
    Scan,
    Cdf,
    Write,
}

/// How far a feature is supported.
#[derive(Debug, Clone, Copy, PartialEq, Eq, Structural)]
pub enum KernelSupport {
    /// For every operation.
    Supported,
    /// For no operation.
    NotSupported,
    /// For every operation but writing.
    ReadOnly,
}

/// A table property that decides whether a supported feature is enabled.
#[derive(Debug, Clone, Copy, PartialEq, Eq, Structural)]
pub enum PropertyCheck {
    AppendOnly,
    ChangeDataFeed,
    InCommitTimestamps,
    RowTracking,
    ColumnMapping,
    DeletionVectors,
    TypeWidening,
}

/// When a supported feature is enabled.
#[derive(Debug, Clone, Copy, PartialEq, Eq, Structural)]
pub enum EnablementCheck {
    /// Always.
    AlwaysIfSupported,
    /// When the table properties say so.
    EnabledIf(PropertyCheck),
}

/// What a feature requires of another.
#[derive(Debug, PartialEq, Eq)]
pub enum FeatureRequirement {
    Supported(TableFeature),
    Enabled(TableFeature),
    NotSupported(TableFeature),
    NotEnabled(TableFeature),
}

/// The mathematical value of a [`FeatureRequirement`].
pub enum RequirementView {
    Supported(FeatureView),
    Enabled(FeatureView),
    NotSupported(FeatureView),
    NotEnabled(FeatureView),
}

impl View for FeatureRequirement {
    type V = RequirementView;

    open spec fn view(&self) -> RequirementView {
        match *self {
            FeatureRequirement::Supported(f) => RequirementView::Supported(f@),
            FeatureRequirement::Enabled(f) => RequirementView::Enabled(f@),
            FeatureRequirement::NotSupported(f) => RequirementView::NotSupported(f@),
            FeatureRequirement::NotEnabled(f) => RequirementView::NotEnabled(f@),
        }
    }
}

/// The values of a list of requirements.
pub open spec fn requirements_view(s: Seq<FeatureRequirement>) -> Seq<RequirementView> {
    Seq::new(s.len(), |i: int| s[i]@)
}

/// The name of a feature in a protocol.
pub open spec fn feature_name(f: FeatureView) -> Seq<char> {
    match f {
        FeatureView::AppendOnly => "appendOnly"@,
        FeatureView::Invariants => "invariants"@,
        FeatureView::CheckConstraints => "checkConstraints"@,
        FeatureView::ChangeDataFeed => "changeDataFeed"@,
        FeatureView::GeneratedColumns => "generatedColumns"@,
        FeatureView::IdentityColumns => "identityColumns"@,
        FeatureView::InCommitTimestamp => "inCommitTimestamp"@,
        FeatureView::RowTracking => "rowTracking"@,
        FeatureView::DomainMetadata => "domainMetadata"@,
        FeatureView::IcebergCompatV1 => "icebergCompatV1"@,
        FeatureView::IcebergCompatV2 => "icebergCompatV2"@,
        FeatureView::ClusteredTable => "clustering"@,
        FeatureView::MaterializePartitionColumns => "materializePartitionColumns"@,
        FeatureView::CatalogManaged => "catalogManaged"@,
        FeatureView::CatalogOwnedPreview => "catalogOwned-preview"@,
        FeatureView::ColumnMapping => "columnMapping"@,
        FeatureView::DeletionVectors => "deletionVectors"@,
        FeatureView::TimestampWithoutTimezone => "timestampNtz"@,
        FeatureView::TypeWidening => "typeWidening"@,
        FeatureView::TypeWideningPreview => "typeWidening-preview"@,
        FeatureView::V2Checkpoint => "v2Checkpoint"@,
        FeatureView::VacuumProtocolCheck => "vacuumProtocolCheck"@,
        FeatureView::VariantType => "variantType"@,
        FeatureView::VariantTypePreview => "variantType-preview"@,
        FeatureView::VariantShreddingPreview => "variantShredding-preview"@,
        FeatureView::Unknown(s) => s,
    }
}

/// The feature of a name.
pub open spec fn feature_of_name(s: Seq<char>) -> FeatureView {
    if s == "appendOnly"@ {
        FeatureView::AppendOnly
    } else if s == "invariants"@ {
        FeatureView::Invariants
    } else if s == "checkConstraints"@ {
        FeatureView::CheckConstraints
    } else if s == "changeDataFeed"@ {
        FeatureView::ChangeDataFeed
    } else if s == "generatedColumns"@ {
        FeatureView::GeneratedColumns
    } else if s == "identityColumns"@ {
        FeatureView::IdentityColumns
    } else if s == "inCommitTimestamp"@ {
        FeatureView::InCommitTimestamp
    } else if s == "rowTracking"@ {
        FeatureView::RowTracking
    } else if s == "domainMetadata"@ {
        FeatureView::DomainMetadata
    } else if s == "icebergCompatV1"@ {
        FeatureView::IcebergCompatV1
    } else if s == "icebergCompatV2"@ {
        FeatureView::IcebergCompatV2
    } else if s == "clustering"@ {
        FeatureView::ClusteredTable
    } else if s == "materializePartitionColumns"@ {
        FeatureView::MaterializePartitionColumns
    } else if s == "catalogManaged"@ {
        FeatureView::CatalogManaged
    } else if s == "catalogOwned-preview"@ {
        FeatureView::CatalogOwnedPreview
    } else if s == "columnMapping"@ {
        FeatureView::ColumnMapping
    } else if s == "deletionVectors"@ {
        FeatureView::DeletionVectors
    } else if s == "timestampNtz"@ {
        FeatureView::TimestampWithoutTimezone
    } else if s == "typeWidening"@ {
        FeatureView::TypeWidening
    } else if s == "typeWidening-preview"@ {
        FeatureView::TypeWideningPreview
    } else if s == "v2Checkpoint"@ {
        FeatureView::V2Checkpoint
    } else if s == "vacuumProtocolCheck"@ {
        FeatureView::VacuumProtocolCheck
    } else if s == "variantType"@ {
        FeatureView::VariantType
    } else if s == "variantType-preview"@ {
        FeatureView::VariantTypePreview
    } else if s == "variantShredding-preview"@ {
        FeatureView::VariantShreddingPreview
    } else {
        FeatureView::Unknown(s)
    }
}

/// Who has to understand a feature.
pub open spec fn feature_type_of(f: FeatureView) -> FeatureType {
    match f {
        FeatureView::AppendOnly
        | FeatureView::Invariants
        | FeatureView::CheckConstraints
        | FeatureView::ChangeDataFeed
        | FeatureView::GeneratedColumns
        | FeatureView::IdentityColumns
        | FeatureView::InCommitTimestamp
        | FeatureView::RowTracking
        | FeatureView::DomainMetadata
        | FeatureView::IcebergCompatV1
        | FeatureView::IcebergCompatV2
        | FeatureView::ClusteredTable
        | FeatureView::MaterializePartitionColumns => FeatureType::WriterOnly,
        FeatureView::Unknown(_) => FeatureType::Unknown,
        _ => FeatureType::ReaderWriter,
    }
}

/// The reader and writer versions that include a feature without listing it.
pub open spec fn legacy_versions_of(f: FeatureView) -> Option<(i32, i32)> {
    match f {
        FeatureView::AppendOnly => Some((1i32, 2i32)),
        FeatureView::Invariants => Some((1i32, 2i32)),
        FeatureView::CheckConstraints => Some((1i32, 3i32)),
        FeatureView::ChangeDataFeed => Some((1i32, 4i32)),
        FeatureView::GeneratedColumns => Some((1i32, 4i32)),
        FeatureView::IdentityColumns => Some((1i32, 6i32)),
        FeatureView::ColumnMapping => Some((2i32, 5i32)),
        _ => None,
    }
}

/// What a feature requires of other features.
pub open spec fn requirements_of(f: FeatureView) -> Seq<RequirementView> {
    match f {
        FeatureView::RowTracking => seq![RequirementView::Supported(FeatureView::DomainMetadata)],
        FeatureView::IcebergCompatV1 => seq![RequirementView::Enabled(FeatureView::ColumnMapping), RequirementView::NotSupported(FeatureView::DeletionVectors)],
        FeatureView::IcebergCompatV2 => seq![RequirementView::Enabled(FeatureView::ColumnMapping), RequirementView::NotEnabled(FeatureView::DeletionVectors)],
        FeatureView::ClusteredTable => seq![RequirementView::Supported(FeatureView::DomainMetadata)],
        FeatureView::CatalogManaged => seq![RequirementView::Enabled(FeatureView::InCommitTimestamp)],
        FeatureView::CatalogOwnedPreview => seq![RequirementView::Enabled(FeatureView::InCommitTimestamp)],
        _ => Seq::empty(),
    }
}

/// How far a feature is supported.
pub open spec fn kernel_support_of(f: FeatureView) -> KernelSupport {
    match f {
        FeatureView::CheckConstraints
        | FeatureView::GeneratedColumns
        | FeatureView::IdentityColumns
        | FeatureView::IcebergCompatV1
        | FeatureView::IcebergCompatV2
        | FeatureView::Unknown(_) => KernelSupport::NotSupported,
        FeatureView::TypeWidening | FeatureView::TypeWideningPreview => KernelSupport::ReadOnly,
        _ => KernelSupport::Supported,
    }
}

/// When a supported feature is enabled.
pub open spec fn enablement_of(f: FeatureView) -> EnablementCheck {
    match f {
        FeatureView::AppendOnly => EnablementCheck::EnabledIf(PropertyCheck::AppendOnly),
        FeatureView::ChangeDataFeed => EnablementCheck::EnabledIf(PropertyCheck::ChangeDataFeed),
        FeatureView::InCommitTimestamp => EnablementCheck::EnabledIf(PropertyCheck::InCommitTimestamps),
        FeatureView::RowTracking => EnablementCheck::EnabledIf(PropertyCheck::RowTracking),
        FeatureView::ColumnMapping => EnablementCheck::EnabledIf(PropertyCheck::ColumnMapping),
        FeatureView::DeletionVectors => EnablementCheck::EnabledIf(PropertyCheck::DeletionVectors),
        FeatureView::TypeWidening => EnablementCheck::EnabledIf(PropertyCheck::TypeWidening),
        FeatureView::TypeWideningPreview => EnablementCheck::EnabledIf(PropertyCheck::TypeWidening),
        _ => EnablementCheck::AlwaysIfSupported,
    }
}

/// Whether the properties of a table enable what a check asks for.
pub open spec fn property_enables(check: PropertyCheck, p: TablePropertiesView) -> bool {
    match check {
        PropertyCheck::AppendOnly => p.append_only == Some(true),
        PropertyCheck::ChangeDataFeed => p.enable_change_data_feed == Some(true),
        PropertyCheck::InCommitTimestamps => p.enable_in_commit_timestamps == Some(true),
        PropertyCheck::RowTracking => p.enable_row_tracking == Some(true)
            && p.row_tracking_suspended != Some(true),
        PropertyCheck::ColumnMapping => p.column_mapping_mode == Some(ColumnMappingMode::Name)
            || p.column_mapping_mode == Some(ColumnMappingMode::Id),
        PropertyCheck::DeletionVectors => p.enable_deletion_vectors == Some(true),
        PropertyCheck::TypeWidening => p.enable_type_widening == Some(true),
    }
}

/// How column names map to the names of the columns in data files.
#[derive(Debug, Clone, Copy, PartialEq, Eq, Structural)]
pub enum ColumnMappingMode {
    /// By the same name.
    NoMapping,
    /// By the field identifier.
    Id,
    /// By the physical name.
    Name,
}

/// The mode of a name.
pub open spec fn mode_of_name(s: Seq<char>) -> Option<ColumnMappingMode> {
    if s == "none"@ {
        Some(ColumnMappingMode::NoMapping)
    } else if s == "id"@ {
        Some(ColumnMappingMode::Id)
    } else if s == "name"@ {
        Some(ColumnMappingMode::Name)
    } else {
        None
    }
}

impl ColumnMappingMode {
    /// Reads a mode from its name.
    pub fn parse(s: &str) -> (r: Option<ColumnMappingMode>)
        ensures
            r == mode_of_name(s@),
    {
        if same_text(s, "none") {
            Some(ColumnMappingMode::NoMapping)
        } else if same_text(s, "id") {
            Some(ColumnMappingMode::Id)
        } else if same_text(s, "name") {
            Some(ColumnMappingMode::Name)
        } else {
            None
        }
    }
}

impl PropertyCheck {
    /// Whether the properties of a table pass the check.
    pub fn passes(&self, p: &TableProperties) -> (r: bool)
        ensures
            r == property_enables(*self, p@),
    {
        match self {
            PropertyCheck::AppendOnly => is_true(p.append_only),
            PropertyCheck::ChangeDataFeed => is_true(p.enable_change_data_feed),
            PropertyCheck::InCommitTimestamps => is_true(p.enable_in_commit_timestamps),
            PropertyCheck::RowTracking => is_true(p.enable_row_tracking) && !is_true(
                p.row_tracking_suspended,
            ),
            PropertyCheck::ColumnMapping => matches!(
                p.column_mapping_mode,
                Some(ColumnMappingMode::Name) | Some(ColumnMappingMode::Id)
            ),
            PropertyCheck::DeletionVectors => is_true(p.enable_deletion_vectors),
            PropertyCheck::TypeWidening => is_true(p.enable_type_widening),
        }
    }
}

/// Whether an optional flag is set.
pub fn is_true(b: Option<bool>) -> (r: bool)
    ensures
        r == (b == Some(true)),
{
    match b {
        Some(b) => b,
        None => false,
    }
}

impl TableFeature {
    /// A feature that is not known.
    pub fn unknown(name: &str) -> (r: TableFeature)
        ensures
            r@ == FeatureView::Unknown(name@),
    {
        TableFeature::Unknown(name.to_owned())
    }

    /// The feature of a name. Every name has one: an unrecognised name becomes an unknown feature.
    pub fn parse(name: &str) -> (r: TableFeature)
        ensures
            r@ == feature_of_name(name@),
    {
        if same_text(name, "appendOnly") {
            TableFeature::AppendOnly
        } else if same_text(name, "invariants") {
            TableFeature::Invariants
        } else if same_text(name, "checkConstraints") {
            TableFeature::CheckConstraints
        } else if same_text(name, "changeDataFeed") {
            TableFeature::ChangeDataFeed
        } else if same_text(name, "generatedColumns") {
            TableFeature::GeneratedColumns
        } else if same_text(name, "identityColumns") {
            TableFeature::IdentityColumns
        } else if same_text(name, "inCommitTimestamp") {
            TableFeature::InCommitTimestamp
        } else if same_text(name, "rowTracking") {
            TableFeature::RowTracking
        } else if same_text(name, "domainMetadata") {
            TableFeature::DomainMetadata
        } else if same_text(name, "icebergCompatV1") {
            TableFeature::IcebergCompatV1
        } else if same_text(name, "icebergCompatV2") {
            TableFeature::IcebergCompatV2
        } else if same_text(name, "clustering") {
            TableFeature::ClusteredTable
        } else if same_text(name, "materializePartitionColumns") {
            TableFeature::MaterializePartitionColumns
        } else if same_text(name, "catalogManaged") {
            TableFeature::CatalogManaged
        } else if same_text(name, "catalogOwned-preview") {
            TableFeature::CatalogOwnedPreview
        } else if same_text(name, "columnMapping") {
            TableFeature::ColumnMapping
        } else if same_text(name, "deletionVectors") {
            TableFeature::DeletionVectors
        } else if same_text(name, "timestampNtz") {
            TableFeature::TimestampWithoutTimezone
        } else if same_text(name, "typeWidening") {
            TableFeature::TypeWidening
        } else if same_text(name, "typeWidening-preview") {
            TableFeature::TypeWideningPreview
        } else if same_text(name, "v2Checkpoint") {
            TableFeature::V2Checkpoint
        } else if same_text(name, "vacuumProtocolCheck") {
            TableFeature::VacuumProtocolCheck
        } else if same_text(name, "variantType") {
            TableFeature::VariantType
        } else if same_text(name, "variantType-preview") {
            TableFeature::VariantTypePreview
        } else if same_text(name, "variantShredding-preview") {
            TableFeature::VariantShreddingPreview
        } else {
            TableFeature::unknown(name)
        }
    }

    /// The name of the feature.
    pub fn name(&self) -> (r: &str)
        ensures
            r@ == feature_name(self@),
    {
        match self {
            TableFeature::AppendOnly => "appendOnly",
            TableFeature::Invariants => "invariants",
            TableFeature::CheckConstraints => "checkConstraints",
            TableFeature::ChangeDataFeed => "changeDataFeed",
            TableFeature::GeneratedColumns => "generatedColumns",
            TableFeature::IdentityColumns => "identityColumns",
            TableFeature::InCommitTimestamp => "inCommitTimestamp",
            TableFeature::RowTracking => "rowTracking",
            TableFeature::DomainMetadata => "domainMetadata",
            TableFeature::IcebergCompatV1 => "icebergCompatV1",
            TableFeature::IcebergCompatV2 => "icebergCompatV2",
            TableFeature::ClusteredTable => "clustering",
            TableFeature::MaterializePartitionColumns => "materializePartitionColumns",
            TableFeature::CatalogManaged => "catalogManaged",
            TableFeature::CatalogOwnedPreview => "catalogOwned-preview",
            TableFeature::ColumnMapping => "columnMapping",
            TableFeature::DeletionVectors => "deletionVectors",
            TableFeature::TimestampWithoutTimezone => "timestampNtz",
            TableFeature::TypeWidening => "typeWidening",
            TableFeature::TypeWideningPreview => "typeWidening-preview",
            TableFeature::V2Checkpoint => "v2Checkpoint",
            TableFeature::VacuumProtocolCheck => "vacuumProtocolCheck",
            TableFeature::VariantType => "variantType",
            TableFeature::VariantTypePreview => "variantType-preview",
            TableFeature::VariantShreddingPreview => "variantShredding-preview",
            TableFeature::Unknown(s) => s.as_str(),
        }
    }

    /// Who has to understand the feature.
    pub fn feature_type(&self) -> (r: FeatureType)
        ensures
            r == feature_type_of(self@),
    {
        match self {
            TableFeature::AppendOnly
            | TableFeature::Invariants
            | TableFeature::CheckConstraints
            | TableFeature::ChangeDataFeed
            | TableFeature::GeneratedColumns
            | TableFeature::IdentityColumns
            | TableFeature::InCommitTimestamp
            | TableFeature::RowTracking
            | TableFeature::DomainMetadata
            | TableFeature::IcebergCompatV1
            | TableFeature::IcebergCompatV2
            | TableFeature::ClusteredTable
            | TableFeature::MaterializePartitionColumns => FeatureType::WriterOnly,
            TableFeature::Unknown(_) => FeatureType::Unknown,
            _ => FeatureType::ReaderWriter,
        }
    }

    /// The reader and writer versions that include the feature without listing it.
    pub fn min_legacy_version(&self) -> (r: Option<(i32, i32)>)
        ensures
            r == legacy_versions_of(self@),
    {
        match self {
            TableFeature::AppendOnly => Some((1, 2)),
            TableFeature::Invariants => Some((1, 2)),
            TableFeature::CheckConstraints => Some((1, 3)),
            TableFeature::ChangeDataFeed => Some((1, 4)),
            TableFeature::GeneratedColumns => Some((1, 4)),
            TableFeature::IdentityColumns => Some((1, 6)),
            TableFeature::ColumnMapping => Some((2, 5)),
            _ => None,
        }
    }

    /// What the feature requires of other features.
    pub fn feature_requirements(&self) -> (r: Vec<FeatureRequirement>)
        ensures
            requirements_view(r@) == requirements_of(self@),
    {
        let r: Vec<FeatureRequirement> = match self {
            TableFeature::RowTracking => vec![FeatureRequirement::Supported(TableFeature::DomainMetadata)],
            TableFeature::IcebergCompatV1 => vec![FeatureRequirement::Enabled(TableFeature::ColumnMapping), FeatureRequirement::NotSupported(TableFeature::DeletionVectors)],
            TableFeature::IcebergCompatV2 => vec![FeatureRequirement::Enabled(TableFeature::ColumnMapping), FeatureRequirement::NotEnabled(TableFeature::DeletionVectors)],
            TableFeature::ClusteredTable => vec![FeatureRequirement::Supported(TableFeature::DomainMetadata)],
            TableFeature::CatalogManaged => vec![FeatureRequirement::Enabled(TableFeature::InCommitTimestamp)],
            TableFeature::CatalogOwnedPreview => vec![FeatureRequirement::Enabled(TableFeature::InCommitTimestamp)],
            _ => Vec::new(),
        };
        assert(requirements_view(r@) =~= requirements_of(self@));
        r
    }

    /// How far the feature is supported.
    pub fn kernel_support(&self) -> (r: KernelSupport)
        ensures
            r == kernel_support_of(self@),
    {
        match self {
            TableFeature::CheckConstraints
            | TableFeature::GeneratedColumns
            | TableFeature::IdentityColumns
            | TableFeature::IcebergCompatV1
            | TableFeature::IcebergCompatV2
            | TableFeature::Unknown(_) => KernelSupport::NotSupported,
            TableFeature::TypeWidening | TableFeature::TypeWideningPreview => KernelSupport::ReadOnly,
            _ => KernelSupport::Supported,
        }
    }

    /// When the feature is enabled, given that it is supported.
    pub fn enablement_check(&self) -> (r: EnablementCheck)
        ensures
            r == enablement_of(self@),
    {
        match self {
            TableFeature::AppendOnly => EnablementCheck::EnabledIf(PropertyCheck::AppendOnly),
            TableFeature::ChangeDataFeed => EnablementCheck::EnabledIf(PropertyCheck::ChangeDataFeed),
            TableFeature::InCommitTimestamp => EnablementCheck::EnabledIf(PropertyCheck::InCommitTimestamps),
            TableFeature::RowTracking => EnablementCheck::EnabledIf(PropertyCheck::RowTracking),
            TableFeature::ColumnMapping => EnablementCheck::EnabledIf(PropertyCheck::ColumnMapping),
            TableFeature::DeletionVectors => EnablementCheck::EnabledIf(PropertyCheck::DeletionVectors),
            TableFeature::TypeWidening => EnablementCheck::EnabledIf(PropertyCheck::TypeWidening),
            TableFeature::TypeWideningPreview => EnablementCheck::EnabledIf(PropertyCheck::TypeWidening),
            _ => EnablementCheck::AlwaysIfSupported,
        }
    }

    /// The position of a feature among the known ones.
    fn index(&self) -> (r: u8)
        ensures
            r == feature_index(self@),
    {
        match self {
            TableFeature::AppendOnly => 0,
            TableFeature::Invariants => 1,
            TableFeature::CheckConstraints => 2,
            TableFeature::ChangeDataFeed => 3,
            TableFeature::GeneratedColumns => 4,
            TableFeature::IdentityColumns => 5,
            TableFeature::InCommitTimestamp => 6,
            TableFeature::RowTracking => 7,
            TableFeature::DomainMetadata => 8,
            TableFeature::IcebergCompatV1 => 9,
            TableFeature::IcebergCompatV2 => 10,
            TableFeature::ClusteredTable => 11,
            TableFeature::MaterializePartitionColumns => 12,
            TableFeature::CatalogManaged => 13,
            TableFeature::CatalogOwnedPreview => 14,
            TableFeature::ColumnMapping => 15,
            TableFeature::DeletionVectors => 16,
            TableFeature::TimestampWithoutTimezone => 17,
            TableFeature::TypeWidening => 18,
            TableFeature::TypeWideningPreview => 19,
            TableFeature::V2Checkpoint => 20,
            TableFeature::VacuumProtocolCheck => 21,
            TableFeature::VariantType => 22,
            TableFeature::VariantTypePreview => 23,
            TableFeature::VariantShreddingPreview => 24,
            TableFeature::Unknown(_) => 25,
        }
    }

    /// Whether two features are the same.
    pub fn same(&self, other: &TableFeature) -> (r: bool)
        ensures
            r == (self@ == other@),
    {
        match (self, other) {
            (TableFeature::Unknown(a), TableFeature::Unknown(b)) => *a == *b,
            _ => {
                let r: bool = self.index() == other.index();
                proof {
                    if r {
                        lemma_feature_index(self@, other@);
                    }
                }
                r
            },
        }
    }
}

/// The position of a feature among the known ones.
spec fn feature_index(f: FeatureView) -> u8 {
    match f {
        FeatureView::AppendOnly => 0,
        FeatureView::Invariants => 1,
        FeatureView::CheckConstraints => 2,
        FeatureView::ChangeDataFeed => 3,
        FeatureView::GeneratedColumns => 4,
        FeatureView::IdentityColumns => 5,
        FeatureView::InCommitTimestamp => 6,
        FeatureView::RowTracking => 7,
        FeatureView::DomainMetadata => 8,
        FeatureView::IcebergCompatV1 => 9,
        FeatureView::IcebergCompatV2 => 10,
        FeatureView::ClusteredTable => 11,
        FeatureView::MaterializePartitionColumns => 12,
        FeatureView::CatalogManaged => 13,
        FeatureView::CatalogOwnedPreview => 14,
        FeatureView::ColumnMapping => 15,
        FeatureView::DeletionVectors => 16,
        FeatureView::TimestampWithoutTimezone => 17,
        FeatureView::TypeWidening => 18,
        FeatureView::TypeWideningPreview => 19,
        FeatureView::V2Checkpoint => 20,
        FeatureView::VacuumProtocolCheck => 21,
        FeatureView::VariantType => 22,
        FeatureView::VariantTypePreview => 23,
        FeatureView::VariantShreddingPreview => 24,
        FeatureView::Unknown(_) => 25,
    }
}

/// Known features at the same position are the same.
proof fn lemma_feature_index(a: FeatureView, b: FeatureView)
    requires
        feature_index(a) == feature_index(b),
        !(a is Unknown && b is Unknown),
    ensures
        a == b,
{
}

impl Clone for TableFeature {
    fn clone(&self) -> (r: TableFeature)
        ensures
            r@ == self@,
    {
        match self {
            TableFeature::AppendOnly => TableFeature::AppendOnly,
            TableFeature::Invariants => TableFeature::Invariants,
            TableFeature::CheckConstraints => TableFeature::CheckConstraints,
            TableFeature::ChangeDataFeed => TableFeature::ChangeDataFeed,
            TableFeature::GeneratedColumns => TableFeature::GeneratedColumns,
            TableFeature::IdentityColumns => TableFeature::IdentityColumns,
            TableFeature::InCommitTimestamp => TableFeature::InCommitTimestamp,
            TableFeature::RowTracking => TableFeature::RowTracking,
            TableFeature::DomainMetadata => TableFeature::DomainMetadata,
            TableFeature::IcebergCompatV1 => TableFeature::IcebergCompatV1,
            TableFeature::IcebergCompatV2 => TableFeature::IcebergCompatV2,
            TableFeature::ClusteredTable => TableFeature::ClusteredTable,
            TableFeature::MaterializePartitionColumns => TableFeature::MaterializePartitionColumns,
            TableFeature::CatalogManaged => TableFeature::CatalogManaged,
            TableFeature::CatalogOwnedPreview => TableFeature::CatalogOwnedPreview,
            TableFeature::ColumnMapping => TableFeature::ColumnMapping,
            TableFeature::DeletionVectors => TableFeature::DeletionVectors,
            TableFeature::TimestampWithoutTimezone => TableFeature::TimestampWithoutTimezone,
            TableFeature::TypeWidening => TableFeature::TypeWidening,
            TableFeature::TypeWideningPreview => TableFeature::TypeWideningPreview,
            TableFeature::V2Checkpoint => TableFeature::V2Checkpoint,
            TableFeature::VacuumProtocolCheck => TableFeature::VacuumProtocolCheck,
            TableFeature::VariantType => TableFeature::VariantType,
            TableFeature::VariantTypePreview => TableFeature::VariantTypePreview,
            TableFeature::VariantShreddingPreview => TableFeature::VariantShreddingPreview,
            TableFeature::Unknown(s) => TableFeature::Unknown(s.clone()),
        }
    }
}

/// Whether a list holds a feature.
pub fn contains_feature(list: &Vec<TableFeature>, feature: &TableFeature) -> (r: bool)
    ensures
        r == features_view(list@).contains(feature@),
{
    let mut i: usize = 0;
    while i < list.len()
        invariant
            i <= list@.len(),
            forall|j: int| 0 <= j < i ==> (#[trigger] list@[j])@ != feature@,
        decreases list.len() - i,
    {
        if list[i].same(feature) {
            assert(features_view(list@)[i as int] == feature@);
            return true;
        }
        i += 1;
    }
    proof {
        if features_view(list@).contains(feature@) {
            let k = choose|k: int| 0 <= k < list@.len() && features_view(list@)[k] == feature@;
            assert(list@[k]@ == feature@);
        }
    }
    false
}

/// A copy of a list of features.
pub fn clone_features(list: &Vec<TableFeature>) -> (r: Vec<TableFeature>)
    ensures
        features_view(r@) == features_view(list@),
{
    let mut r: Vec<TableFeature> = Vec::new();
    let mut i: usize = 0;
    while i < list.len()
        invariant
            i <= list@.len(),
            r@.len() == i,
            forall|j: int| 0 <= j < i ==> (#[trigger] r@[j])@ == list@[j]@,
        decreases list.len() - i,
    {
        r.push(list[i].clone());
        i += 1;
    }
    assert(features_view(r@) =~= features_view(list@));
    r
}

/// Anything that stands for a table feature: the feature itself, or its name.
pub trait IntoTableFeature: Sized {
    /// The feature that the value stands for.
    spec fn as_feature(&self) -> FeatureView;

    /// Turns the value into the feature.
    fn into_table_feature(self) -> (r: TableFeature)
        ensures
            r@ == self.as_feature(),
    ;
}

impl IntoTableFeature for TableFeature {
    open spec fn as_feature(&self) -> FeatureView {
        self@
    }

    fn into_table_feature(self) -> (r: TableFeature) {
        self
    }
}

impl IntoTableFeature for String {
    open spec fn as_feature(&self) -> FeatureView {
        feature_of_name(self@)
    }

    fn into_table_feature(self) -> (r: TableFeature) {
        TableFeature::parse(self.as_str())
    }
}

impl<'a> IntoTableFeature for &'a str {
    open spec fn as_feature(&self) -> FeatureView {
        feature_of_name(self@)
    }

    fn into_table_feature(self) -> (r: TableFeature) {
        TableFeature::parse(self)
    }
}

/// A feature's name is read back as the feature, unless it is an unknown feature that bears the
/// name of a known one.
pub proof fn feature_name_round_trip(f: FeatureView)
    requires
        f matches FeatureView::Unknown(s) ==> feature_of_name(s) is Unknown,
    ensures
        feature_of_name(feature_name(f)) == f,
{
    reveal_strlit("appendOnly");
    reveal_strlit("invariants");
    reveal_strlit("checkConstraints");
    reveal_strlit("changeDataFeed");
    reveal_strlit("generatedColumns");
    reveal_strlit("identityColumns");
    reveal_strlit("inCommitTimestamp");
    reveal_strlit("rowTracking");
    reveal_strlit("domainMetadata");
    reveal_strlit("icebergCompatV1");
    reveal_strlit("icebergCompatV2");
    reveal_strlit("clustering");
    reveal_strlit("materializePartitionColumns");
    reveal_strlit("catalogManaged");
    reveal_strlit("catalogOwned-preview");
    reveal_strlit("columnMapping");
    reveal_strlit("deletionVectors");
    reveal_strlit("timestampNtz");
    reveal_strlit("typeWidening");
    reveal_strlit("typeWidening-preview");
    reveal_strlit("v2Checkpoint");
    reveal_strlit("vacuumProtocolCheck");
    reveal_strlit("variantType");
    reveal_strlit("variantType-preview");
    reveal_strlit("variantShredding-preview");
    assert("appendOnly"@.len() == 10);
    assert("invariants"@.len() == 10);
    assert("checkConstraints"@.len() == 16);
    assert("changeDataFeed"@.len() == 14);
    assert("generatedColumns"@.len() == 16);
    assert("identityColumns"@.len() == 15);
    assert("inCommitTimestamp"@.len() == 17);
    assert("rowTracking"@.len() == 11);
    assert("domainMetadata"@.len() == 14);
    assert("icebergCompatV1"@.len() == 15);
    assert("icebergCompatV2"@.len() == 15);
    assert("clustering"@.len() == 10);
    assert("materializePartitionColumns"@.len() == 27);
    assert("catalogManaged"@.len() == 14);
    assert("catalogOwned-preview"@.len() == 20);
    assert("columnMapping"@.len() == 13);
    assert("deletionVectors"@.len() == 15);
    assert("timestampNtz"@.len() == 12);
    assert("typeWidening"@.len() == 12);
    assert("typeWidening-preview"@.len() == 20);
    assert("v2Checkpoint"@.len() == 12);
    assert("vacuumProtocolCheck"@.len() == 19);
    assert("variantType"@.len() == 11);
    assert("variantType-preview"@.len() == 19);
    assert("variantShredding-preview"@.len() == 24);
    assert("appendOnly"@[0] == 'a');
    assert("catalogManaged"@[1] == 'a');
    assert("catalogOwned-preview"@[0] == 'c');
    assert("changeDataFeed"@[0] == 'c');
    assert("changeDataFeed"@[1] == 'h');
    assert("checkConstraints"@[0] == 'c');
    assert("clustering"@[0] == 'c');
    assert("deletionVectors"@[0] == 'd');
    assert("domainMetadata"@[0] == 'd');
    assert("domainMetadata"@[1] == 'o');
    assert("generatedColumns"@[0] == 'g');
    assert("icebergCompatV1"@[0] == 'i');
    assert("icebergCompatV1"@[1] == 'c');
    assert("icebergCompatV1"@[14] == '1');
    assert("icebergCompatV2"@[0] == 'i');
    assert("icebergCompatV2"@[14] == '2');
    assert("identityColumns"@[0] == 'i');
    assert("identityColumns"@[1] == 'd');
    assert("identityColumns"@[14] == 's');
    assert("invariants"@[0] == 'i');
    assert("rowTracking"@[0] == 'r');
    assert("timestampNtz"@[1] == 'i');
    assert("typeWidening"@[1] == 'y');
    assert("typeWidening-preview"@[0] == 't');
    assert("v2Checkpoint"@[1] == '2');
    assert("vacuumProtocolCheck"@[2] == 'c');
    assert("variantType"@[0] == 'v');
    assert("variantType-preview"@[2] == 'r');
}

} // verus!
