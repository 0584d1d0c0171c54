use delta_kernel::actions::{Metadata, Protocol};
use delta_kernel::error::{DeltaResult, Error};
use delta_kernel::expressions::ColumnName;
use delta_kernel::schema::{DataType, MetadataValue, PrimitiveType, StructField, StructType};
use delta_kernel::schema_transform::ColumnMetadataKey;
use delta_kernel::string_map::StringMap;
use delta_kernel::table_configuration::{InCommitTimestampEnablement, TableConfiguration};
use delta_kernel::table_features::{
    ColumnMappingMode, FeatureType, Operation, TableFeature, TABLE_FEATURES_MIN_READER_VERSION,
    TABLE_FEATURES_MIN_WRITER_VERSION,
};
use delta_kernel::table_properties::{
    TableProperties, APPEND_ONLY, COLUMN_MAPPING_MODE, ENABLE_CHANGE_DATA_FEED,
    ENABLE_DELETION_VECTORS, ENABLE_IN_COMMIT_TIMESTAMPS, IN_COMMIT_TIMESTAMP_ENABLEMENT_TIMESTAMP,
    IN_COMMIT_TIMESTAMP_ENABLEMENT_VERSION,
};

const NO_FEATURES: [TableFeature; 0] = [];

fn config(pairs: &[(&str, &str)]) -> StringMap<String> {
    let mut map = StringMap::new();
    for (k, v) in pairs {
        map.insert(k.to_string(), v.to_string());
    }
    map
}

fn value_schema() -> StructType {
    StructType::new_unchecked(vec![StructField::nullable("value", DataType::integer())])
}

fn try_table(
    schema: StructType,
    partition_columns: Vec<String>,
    properties: &[(&str, &str)],
    protocol: Protocol,
) -> DeltaResult<TableConfiguration> {
    let metadata =
        Metadata::try_new(None, None, &schema, partition_columns, 0, config(properties)).unwrap();
    TableConfiguration::try_new(metadata, schema, protocol, "file:///".to_string(), 0)
}

fn value_table(properties: &[(&str, &str)], protocol: Protocol) -> TableConfiguration {
    try_table(value_schema(), vec![], properties, protocol).unwrap()
}

fn modern<const R: usize, const W: usize>(
    reader: [TableFeature; R],
    writer: [TableFeature; W],
) -> Protocol {
    Protocol::try_new_modern(Vec::from(reader), Vec::from(writer)).unwrap()
}

fn assert_result_error_with_message<T>(result: DeltaResult<T>, message: &str) {
    match result {
        Ok(_) => panic!("Expected an error with the message: {message}"),
        Err(e) => {
            let text = e.to_string();
            assert!(text.contains(message), "Expected:\t{message}\nBut got:\t{text}");
        }
    }
}

fn create_mock_table_config(
    props_to_enable: &[(&str, &str)],
    features: &[TableFeature],
) -> TableConfiguration {
    create_mock_table_config_with_version(
        props_to_enable,
        Some(features),
        TABLE_FEATURES_MIN_READER_VERSION,
        TABLE_FEATURES_MIN_WRITER_VERSION,
    )
}

fn create_mock_table_config_with_version(
    props_to_enable: &[(&str, &str)],
    features_opt: Option<&[TableFeature]>,
    min_reader_version: i32,
    min_writer_version: i32,
) -> TableConfiguration {
    let (reader_features, writer_features) = match features_opt {
        Some(features) => {
            assert!(features.iter().all(|f| f.feature_type() != FeatureType::Unknown));
            let reader: Vec<TableFeature> = features
                .iter()
                .filter(|f| f.feature_type() == FeatureType::ReaderWriter)
                .cloned()
                .collect();
            (
                (min_reader_version >= TABLE_FEATURES_MIN_READER_VERSION).then_some(reader),
                (min_writer_version >= TABLE_FEATURES_MIN_WRITER_VERSION)
                    .then_some(features.to_vec()),
            )
        }
        None => (None, None),
    };
    let protocol = Protocol::try_new(
        min_reader_version,
        min_writer_version,
        reader_features,
        writer_features,
    )
    .unwrap();
    value_table(props_to_enable, protocol)
}

#[test]
fn dv_supported_not_enabled() {
    let table_config = value_table(
        &[(ENABLE_CHANGE_DATA_FEED, "true")],
        modern(
            [TableFeature::DeletionVectors],
            [TableFeature::DeletionVectors, TableFeature::ChangeDataFeed],
        ),
    );
    assert!(table_config.is_feature_supported(&TableFeature::DeletionVectors));
    assert!(!table_config.is_feature_enabled(&TableFeature::DeletionVectors));
}

#[test]
fn dv_enabled() {
    let table_config = value_table(
        &[(ENABLE_CHANGE_DATA_FEED, "true"), (ENABLE_DELETION_VECTORS, "true")],
        modern(
            [TableFeature::DeletionVectors],
            [TableFeature::DeletionVectors, TableFeature::ChangeDataFeed],
        ),
    );
    assert!(table_config.is_feature_supported(&TableFeature::DeletionVectors));
    assert!(table_config.is_feature_enabled(&TableFeature::DeletionVectors));
}

#[test]
fn reject_protocol_version_below_minimum() {
    for (rv, wv, op) in [(-1, 2, Operation::Scan), (1, -1, Operation::Write)] {
        let protocol = Protocol::new_unchecked(rv, wv, None, None);
        let table_config = value_table(&[], protocol);
        let expected = if rv < 1 {
            format!("Invalid protocol action in the delta log: min_reader_version must be >= 1, got {rv}")
        } else {
            format!("Invalid protocol action in the delta log: min_writer_version must be >= 1, got {wv}")
        };
        assert_result_error_with_message(table_config.ensure_operation_supported(op), &expected);
    }
}

#[test]
fn write_with_cdf() {
    let cdf = (ENABLE_CHANGE_DATA_FEED, "true");
    let append_only = (APPEND_ONLY, "true");
    let cases = [
        (create_mock_table_config(&[cdf], &[TableFeature::ChangeDataFeed]), Ok(())),
        (
            create_mock_table_config(
                &[cdf],
                &[TableFeature::ChangeDataFeed, TableFeature::AppendOnly],
            ),
            Ok(()),
        ),
        (
            create_mock_table_config(
                &[cdf, append_only],
                &[TableFeature::ChangeDataFeed, TableFeature::AppendOnly],
            ),
            Ok(()),
        ),
        (
            create_mock_table_config_with_version(&[cdf], None, 1, 8),
            Err(Error::unsupported("Unsupported minimum writer version 8")),
        ),
        (
            create_mock_table_config(
                &[cdf, append_only],
                &[
                    TableFeature::ChangeDataFeed,
                    TableFeature::ColumnMapping,
                    TableFeature::AppendOnly,
                ],
            ),
            Ok(()),
        ),
        (
            create_mock_table_config(
                &[append_only],
                &[
                    TableFeature::ChangeDataFeed,
                    TableFeature::ColumnMapping,
                    TableFeature::AppendOnly,
                ],
            ),
            Ok(()),
        ),
        (create_mock_table_config(&[append_only], &[TableFeature::AppendOnly]), Ok(())),
    ];
    for (table_configuration, result) in cases {
        match (table_configuration.ensure_operation_supported(Operation::Write), result) {
            (Ok(()), Ok(())) => {}
            (actual_result, Err(expected)) => {
                assert_result_error_with_message(actual_result, &expected.to_string());
            }
            (Err(actual_result), Ok(())) => {
                panic!("Expected Ok but got error: {actual_result:?}");
            }
        }
    }
}

#[test]
fn ict_enabled_from_table_creation() {
    let table_config = value_table(
        &[(ENABLE_IN_COMMIT_TIMESTAMPS, "true")],
        modern(NO_FEATURES, [TableFeature::InCommitTimestamp]),
    );
    assert!(table_config.is_feature_supported(&TableFeature::InCommitTimestamp));
    assert!(table_config.is_feature_enabled(&TableFeature::InCommitTimestamp));
    let info = table_config.in_commit_timestamp_enablement().unwrap();
    assert_eq!(info, InCommitTimestampEnablement::Enabled { enablement: None });
}

#[test]
fn ict_supported_and_enabled() {
    let table_config = value_table(
        &[
            (ENABLE_IN_COMMIT_TIMESTAMPS, "true"),
            (IN_COMMIT_TIMESTAMP_ENABLEMENT_VERSION, "5"),
            (IN_COMMIT_TIMESTAMP_ENABLEMENT_TIMESTAMP, "100"),
        ],
        modern(NO_FEATURES, [TableFeature::InCommitTimestamp]),
    );
    assert!(table_config.is_feature_supported(&TableFeature::InCommitTimestamp));
    assert!(table_config.is_feature_enabled(&TableFeature::InCommitTimestamp));
    let info = table_config.in_commit_timestamp_enablement().unwrap();
    assert_eq!(info, InCommitTimestampEnablement::Enabled { enablement: Some((5, 100)) });
}

#[test]
fn ict_enabled_with_partial_enablement_info() {
    let table_config = value_table(
        &[
            (ENABLE_IN_COMMIT_TIMESTAMPS, "true"),
            (IN_COMMIT_TIMESTAMP_ENABLEMENT_VERSION, "5"),
        ],
        modern(NO_FEATURES, [TableFeature::InCommitTimestamp]),
    );
    assert!(table_config.is_feature_supported(&TableFeature::InCommitTimestamp));
    assert!(table_config.is_feature_enabled(&TableFeature::InCommitTimestamp));
    assert!(matches!(
        table_config.in_commit_timestamp_enablement(),
        Err(Error::Generic(msg)) if msg.contains("In-commit timestamp enabled, but enablement timestamp is missing")
    ));
}

#[test]
fn ict_enabled_with_a_timestamp_but_no_version() {
    let table_config = value_table(
        &[
            (ENABLE_IN_COMMIT_TIMESTAMPS, "true"),
            (IN_COMMIT_TIMESTAMP_ENABLEMENT_TIMESTAMP, "100"),
        ],
        modern(NO_FEATURES, [TableFeature::InCommitTimestamp]),
    );
    assert!(matches!(
        table_config.in_commit_timestamp_enablement(),
        Err(Error::Generic(msg)) if msg.contains("version is missing")
    ));
}

#[test]
fn ict_supported_and_not_enabled() {
    let table_config =
        value_table(&[], modern(NO_FEATURES, [TableFeature::InCommitTimestamp]));
    assert!(table_config.is_feature_supported(&TableFeature::InCommitTimestamp));
    assert!(!table_config.is_feature_enabled(&TableFeature::InCommitTimestamp));
    let info = table_config.in_commit_timestamp_enablement().unwrap();
    assert_eq!(info, InCommitTimestampEnablement::NotEnabled);
}

#[test]
fn fails_on_unsupported_feature() {
    let protocol = Protocol::try_new_modern(vec!["unknown"], vec!["unknown"]).unwrap();
    let table_config = value_table(&[], protocol);
    table_config
        .ensure_operation_supported(Operation::Scan)
        .expect_err("Unknown feature is not supported in kernel");
}

#[test]
fn dv_not_supported() {
    let table_config = value_table(
        &[(ENABLE_CHANGE_DATA_FEED, "true")],
        modern(
            [TableFeature::TimestampWithoutTimezone],
            [TableFeature::TimestampWithoutTimezone, TableFeature::ChangeDataFeed],
        ),
    );
    assert!(!table_config.is_feature_supported(&TableFeature::DeletionVectors));
    assert!(!table_config.is_feature_enabled(&TableFeature::DeletionVectors));
}

#[test]
fn test_try_new_from() {
    let table_config = value_table(
        &[(ENABLE_CHANGE_DATA_FEED, "true")],
        modern(
            [TableFeature::DeletionVectors],
            [TableFeature::DeletionVectors, TableFeature::ChangeDataFeed],
        ),
    );
    let new_schema = value_schema();
    let new_metadata = Metadata::try_new(
        None,
        None,
        &new_schema,
        vec![],
        0,
        config(&[(ENABLE_CHANGE_DATA_FEED, "false"), (ENABLE_DELETION_VECTORS, "true")]),
    )
    .unwrap();
    let new_protocol = modern(
        [TableFeature::DeletionVectors, TableFeature::V2Checkpoint],
        [
            TableFeature::DeletionVectors,
            TableFeature::V2Checkpoint,
            TableFeature::AppendOnly,
            TableFeature::ChangeDataFeed,
        ],
    );
    let new_version = 1;
    let new_table_config = TableConfiguration::try_new_from(
        &table_config,
        Some((new_metadata.clone(), new_schema)),
        Some(new_protocol.clone()),
        new_version,
    )
    .unwrap();

    assert_eq!(new_table_config.version(), new_version);
    assert_eq!(new_table_config.metadata(), &new_metadata);
    assert_eq!(new_table_config.protocol(), &new_protocol);
    assert_eq!(new_table_config.logical_schema(), table_config.logical_schema());
    assert_eq!(
        new_table_config.table_properties(),
        &TableProperties {
            enable_change_data_feed: Some(false),
            enable_deletion_vectors: Some(true),
            ..Default::default()
        }
    );
    assert_eq!(new_table_config.column_mapping_mode(), table_config.column_mapping_mode());
    assert_eq!(new_table_config.table_root(), table_config.table_root());
}

#[test]
fn an_unchanged_configuration_only_gets_a_new_version() {
    let table_config = create_mock_table_config(&[], &[TableFeature::AppendOnly]);
    let later = TableConfiguration::try_new_from(&table_config, None, None, 7).unwrap();
    assert_eq!(later.version(), 7);
    assert_eq!(later.metadata(), table_config.metadata());
    assert_eq!(later.protocol(), table_config.protocol());
    let committed = TableConfiguration::new_post_commit(&table_config, 7, None, None).unwrap();
    assert_eq!(committed, later);
}

#[test]
fn test_timestamp_ntz_validation_integration() {
    let schema = StructType::new_unchecked(vec![StructField::nullable(
        "ts",
        DataType::Primitive(PrimitiveType::TimestampNtz),
    )]);
    let result = try_table(schema.clone(), vec![], &[], modern(NO_FEATURES, NO_FEATURES));
    assert_result_error_with_message(result, "Unsupported: Table contains TIMESTAMP_NTZ columns but does not have the required 'timestampNtz' feature in reader and writer features");

    let result = try_table(
        schema,
        vec![],
        &[],
        modern(
            [TableFeature::TimestampWithoutTimezone],
            [TableFeature::TimestampWithoutTimezone],
        ),
    );
    assert!(
        result.is_ok(),
        "Should succeed when TIMESTAMP_NTZ is used with required features"
    );
}

#[test]
fn test_variant_validation_integration() {
    let schema = StructType::new_unchecked(vec![StructField::nullable(
        "v",
        DataType::unshredded_variant(),
    )]);
    let result = try_table(schema.clone(), vec![], &[], modern(NO_FEATURES, NO_FEATURES));
    assert_result_error_with_message(result, "Unsupported: Table contains VARIANT columns but does not have the required 'variantType' feature in reader and writer features");

    let result = try_table(
        schema,
        vec![],
        &[],
        modern([TableFeature::VariantType], [TableFeature::VariantType]),
    );
    assert!(
        result.is_ok(),
        "Should succeed when VARIANT is used with required features"
    );
}

#[derive(Debug, Clone, Copy)]
enum UnknownFeatureShape {
    NotListed,
    WriterOnly,
    ReaderWriter,
}

fn create_unknown_feature_config(
    shape: UnknownFeatureShape,
) -> (TableFeature, TableConfiguration) {
    let name = "futureFeature";
    let reader_features = match shape {
        UnknownFeatureShape::ReaderWriter => vec![name],
        _ => vec![],
    };
    let writer_features = match shape {
        UnknownFeatureShape::NotListed => vec![],
        _ => vec![name],
    };
    let protocol = Protocol::try_new_modern(reader_features, writer_features).unwrap();
    (TableFeature::unknown(name), value_table(&[], protocol))
}

#[test]
fn test_unknown_feature_protocol_support() {
    for (shape, expected_supported) in [
        (UnknownFeatureShape::NotListed, false),
        (UnknownFeatureShape::WriterOnly, true),
        (UnknownFeatureShape::ReaderWriter, true),
    ] {
        let (unknown, config) = create_unknown_feature_config(shape);
        assert_eq!(config.is_feature_supported(&unknown), expected_supported);
    }
}

#[test]
fn test_unknown_feature_protocol_enablement() {
    for (shape, expected_enabled) in [
        (UnknownFeatureShape::NotListed, false),
        (UnknownFeatureShape::WriterOnly, true),
        (UnknownFeatureShape::ReaderWriter, true),
    ] {
        let (unknown, config) = create_unknown_feature_config(shape);
        assert_eq!(config.is_feature_enabled(&unknown), expected_enabled);
    }
}

#[test]
fn test_unknown_feature_capabilities() {
    for shape in [
        UnknownFeatureShape::NotListed,
        UnknownFeatureShape::WriterOnly,
        UnknownFeatureShape::ReaderWriter,
    ] {
        for operation in [Operation::Scan, Operation::Cdf, Operation::Write] {
            let (_, config) = create_unknown_feature_config(shape);
            let expected_ok = match shape {
                UnknownFeatureShape::NotListed => true,
                UnknownFeatureShape::WriterOnly => operation != Operation::Write,
                UnknownFeatureShape::ReaderWriter => false,
            };
            assert_eq!(config.ensure_operation_supported(operation).is_ok(), expected_ok);
        }
    }
}

#[test]
fn test_is_feature_supported_writer_only() {
    let feature = TableFeature::AppendOnly;

    let config = create_mock_table_config_with_version(&[], None, 1, 2);
    assert!(config.is_feature_supported(&feature));

    let config = create_mock_table_config_with_version(&[], None, 1, 1);
    assert!(!config.is_feature_supported(&feature));

    let config =
        create_mock_table_config_with_version(&[], Some(&[TableFeature::AppendOnly]), 2, 7);
    assert!(config.is_feature_supported(&feature));

    let config =
        create_mock_table_config_with_version(&[], Some(&[TableFeature::ChangeDataFeed]), 2, 7);
    assert!(!config.is_feature_supported(&feature));

    let config = create_mock_table_config(&[], &[TableFeature::AppendOnly]);
    assert!(config.is_feature_supported(&feature));

    let config = create_mock_table_config(&[], &[TableFeature::DeletionVectors]);
    assert!(!config.is_feature_supported(&feature));
}

#[test]
fn test_is_feature_supported_reader_writer() {
    let feature = TableFeature::ColumnMapping;

    let config = create_mock_table_config_with_version(&[], None, 2, 5);
    assert!(config.is_feature_supported(&feature));

    let config = create_mock_table_config_with_version(&[], None, 1, 5);
    assert!(!config.is_feature_supported(&feature));

    let config = create_mock_table_config_with_version(&[], None, 2, 4);
    assert!(!config.is_feature_supported(&feature));

    let config =
        create_mock_table_config_with_version(&[], Some(&[TableFeature::AppendOnly]), 2, 7);
    assert!(!config.is_feature_supported(&feature));

    let config = create_mock_table_config(&[], &[TableFeature::ColumnMapping]);
    assert!(config.is_feature_supported(&feature));

    let config = create_mock_table_config(&[], &[TableFeature::DeletionVectors]);
    assert!(!config.is_feature_supported(&feature));
}

#[test]
fn test_is_feature_enabled_with_property_check() {
    let feature = TableFeature::AppendOnly;

    let config = create_mock_table_config_with_version(&[], None, 1, 2);
    assert!(config.is_feature_supported(&feature));
    assert!(!config.is_feature_enabled(&feature));

    let config = create_mock_table_config_with_version(&[(APPEND_ONLY, "true")], None, 1, 2);
    assert!(config.is_feature_supported(&feature));
    assert!(config.is_feature_enabled(&feature));

    let config = create_mock_table_config_with_version(&[(APPEND_ONLY, "true")], None, 1, 1);
    assert!(!config.is_feature_supported(&feature));
    assert!(!config.is_feature_enabled(&feature));
}

#[test]
fn test_is_feature_enabled_always_if_supported() {
    let feature = TableFeature::V2Checkpoint;

    let config = create_mock_table_config(&[], &[TableFeature::V2Checkpoint]);
    assert!(config.is_feature_supported(&feature));
    assert!(config.is_feature_enabled(&feature));

    let config = create_mock_table_config(&[], &[TableFeature::DeletionVectors]);
    assert!(!config.is_feature_supported(&feature));
    assert!(!config.is_feature_enabled(&feature));
}

#[test]
fn test_ensure_operation_supported_reads() {
    let config = create_mock_table_config(&[], &[]);
    assert!(config.ensure_operation_supported(Operation::Scan).is_ok());

    let config = create_mock_table_config(&[], &[TableFeature::V2Checkpoint]);
    assert!(config.ensure_operation_supported(Operation::Scan).is_ok());

    let config = create_mock_table_config_with_version(&[], None, 1, 2);
    assert!(config.ensure_operation_supported(Operation::Scan).is_ok());

    let config =
        create_mock_table_config_with_version(&[], Some(&[TableFeature::InCommitTimestamp]), 2, 7);
    assert!(config.ensure_operation_supported(Operation::Scan).is_ok());
}

#[test]
fn test_ensure_operation_supported_writes() {
    let config = create_mock_table_config(
        &[],
        &[
            TableFeature::AppendOnly,
            TableFeature::DeletionVectors,
            TableFeature::DomainMetadata,
            TableFeature::Invariants,
            TableFeature::RowTracking,
        ],
    );
    assert!(config.ensure_operation_supported(Operation::Write).is_ok());

    let config = create_mock_table_config(&[], &[TableFeature::TypeWidening]);
    assert_result_error_with_message(
        config.ensure_operation_supported(Operation::Write),
        r#"Feature 'typeWidening' is not supported for writes"#,
    );
}

#[test]
fn test_illegal_writer_feature_combination() {
    let config = value_table(&[], modern(NO_FEATURES, [TableFeature::RowTracking]));
    assert_result_error_with_message(
        config.ensure_operation_supported(Operation::Write),
        "Feature 'rowTracking' requires 'domainMetadata' to be supported",
    );
}

#[test]
fn test_row_tracking_with_domain_metadata_requirement() {
    let config = value_table(
        &[],
        modern(NO_FEATURES, [TableFeature::RowTracking, TableFeature::DomainMetadata]),
    );
    assert!(
        config.ensure_operation_supported(Operation::Write).is_ok(),
        "RowTracking with DomainMetadata should be supported for writes"
    );
}

#[test]
fn test_catalog_managed_writes() {
    let config = create_mock_table_config(
        &[(ENABLE_IN_COMMIT_TIMESTAMPS, "true")],
        &[TableFeature::CatalogManaged, TableFeature::InCommitTimestamp],
    );
    assert!(config.ensure_operation_supported(Operation::Write).is_ok());
    assert!(config.is_catalog_managed());

    let config = create_mock_table_config(
        &[(ENABLE_IN_COMMIT_TIMESTAMPS, "true")],
        &[TableFeature::CatalogOwnedPreview, TableFeature::InCommitTimestamp],
    );
    assert!(config.ensure_operation_supported(Operation::Write).is_ok());
}

fn mapped_field(name: &str, data_type: DataType, id: i64, physical_name: &str) -> StructField {
    let mut field = StructField::nullable(name, data_type);
    field
        .metadata
        .insert("delta.columnMapping.id".to_string(), MetadataValue::Number(id));
    field.metadata.insert(
        "delta.columnMapping.physicalName".to_string(),
        MetadataValue::String(physical_name.to_string()),
    );
    field
}

fn schema_with_column_mapping() -> StructType {
    StructType::new_unchecked(vec![
        mapped_field("col_a", DataType::long(), 1, "phys_col_a"),
        mapped_field("col_b", DataType::string(), 2, "phys_col_b"),
    ])
}

fn create_table_config_with_column_mapping(
    schema: StructType,
    column_mapping_mode: &str,
) -> TableConfiguration {
    create_table_config_with_column_mapping_and_props(schema, column_mapping_mode, &[])
}

fn create_table_config_with_column_mapping_and_props(
    schema: StructType,
    column_mapping_mode: &str,
    extra_props: &[(&str, &str)],
) -> TableConfiguration {
    let mut props = extra_props.to_vec();
    props.push((COLUMN_MAPPING_MODE, column_mapping_mode));
    let protocol = Protocol::try_new_legacy(2, 5).unwrap();
    try_table(schema, vec![], &props, protocol).unwrap()
}

fn struct_field<'a>(schema: &'a StructType, name: &str) -> &'a StructType {
    let DataType::Struct(inner) = schema.field(name).unwrap().data_type() else {
        panic!("Expected {name} to be a struct");
    };
    inner
}

#[test]
fn test_build_expected_stats_schemas_no_column_mapping() {
    let schema = StructType::new_unchecked(vec![
        StructField::nullable("col_a", DataType::long()),
        StructField::nullable("col_b", DataType::string()),
    ]);
    let protocol = Protocol::try_new_legacy(1, 2).unwrap();
    let config = try_table(schema, vec![], &[], protocol).unwrap();

    assert_eq!(config.column_mapping_mode(), ColumnMappingMode::NoMapping);

    let stats_schema = config.build_expected_stats_schemas(None, None);
    let inner = struct_field(&stats_schema, "minValues");
    assert!(inner.field("col_a").is_some());
    assert!(inner.field("col_b").is_some());
}

#[test]
fn test_build_expected_stats_schemas_with_column_mapping() {
    let schema = schema_with_column_mapping();
    let config = create_table_config_with_column_mapping(schema, "name");

    assert_eq!(config.column_mapping_mode(), ColumnMappingMode::Name);

    let stats_schema = config.build_expected_stats_schemas(None, None);
    let inner = struct_field(&stats_schema, "minValues");
    assert!(inner.field("phys_col_a").is_some(), "Physical schema should have phys_col_a");
    assert!(inner.field("phys_col_b").is_some(), "Physical schema should have phys_col_b");
    assert!(inner.field("col_a").is_none());
}

#[test]
fn test_build_expected_stats_schemas_id_mode_has_no_parquet_field_ids() {
    let schema = schema_with_column_mapping();
    let config = create_table_config_with_column_mapping(schema, "id");

    assert_eq!(config.column_mapping_mode(), ColumnMappingMode::Id);

    let stats_schema = config.build_expected_stats_schemas(None, None);
    let inner = struct_field(&stats_schema, "minValues");
    assert!(inner.field("phys_col_a").is_some(), "Physical schema should have phys_col_a");
    assert!(inner.field("phys_col_b").is_some(), "Physical schema should have phys_col_b");
    assert!(inner.field("col_a").is_none());

    for field in inner.fields() {
        assert!(
            field.get_config_value(&ColumnMetadataKey::ParquetFieldId).is_none(),
            "Physical stats schema field '{}' should not have ParquetFieldId metadata",
            field.name()
        );
    }

    let data_schema = schema_with_column_mapping();
    let physical_data = data_schema.make_physical(ColumnMappingMode::Id).unwrap();
    let data_field = physical_data.field("phys_col_a").unwrap();
    assert!(
        matches!(
            data_field.get_config_value(&ColumnMetadataKey::ParquetFieldId),
            Some(MetadataValue::Number(_))
        ),
        "make_physical should inject ParquetFieldId for data schemas in Id mode"
    );
}

#[test]
fn test_build_expected_stats_schemas_excludes_partition_columns() {
    let schema = StructType::new_unchecked(vec![
        mapped_field("data_col", DataType::long(), 1, "phys_data"),
        mapped_field("part_col", DataType::string(), 2, "phys_part"),
    ]);
    let protocol = Protocol::try_new_legacy(2, 5).unwrap();
    let config = try_table(
        schema,
        vec!["part_col".to_string()],
        &[(COLUMN_MAPPING_MODE, "name")],
        protocol,
    )
    .unwrap();

    let stats_schema = config.build_expected_stats_schemas(None, None);
    let inner = struct_field(&stats_schema, "minValues");
    assert!(
        inner.field("phys_data").is_some(),
        "Data column should be present with physical name"
    );
    assert!(inner.field("phys_part").is_none(), "Partition column should be excluded");
    assert!(
        inner.field("part_col").is_none(),
        "Partition column logical name should also be absent"
    );

    let parsed = config.build_partition_values_parsed_schema().unwrap();
    assert_eq!(parsed.num_fields(), 1);
    assert_eq!(parsed.fields()[0].name(), "phys_part");
    assert_eq!(config.partition_columns(), &vec!["part_col".to_string()]);
}

#[test]
fn test_physical_stats_column_names_returns_physical_names() {
    let schema = schema_with_column_mapping();
    let config = create_table_config_with_column_mapping(schema, "name");

    let column_names = config.physical_stats_column_names(None);

    assert_eq!(
        column_names,
        vec![ColumnName::new(["phys_col_a"]), ColumnName::new(["phys_col_b"])],
        "Expected physical column names, not logical names"
    );
}

fn nested_schema_with_column_mapping() -> StructType {
    let info = DataType::struct_type_unchecked(vec![
        mapped_field("name", DataType::string(), 3, "phys_name"),
        mapped_field("age", DataType::integer(), 4, "phys_age"),
    ]);
    StructType::new_unchecked(vec![
        mapped_field("id", DataType::long(), 1, "phys_id"),
        mapped_field("info", info, 2, "phys_info"),
    ])
}

#[test]
fn test_physical_stats_column_names_with_data_skipping_stats_columns() {
    let config = create_table_config_with_column_mapping_and_props(
        nested_schema_with_column_mapping(),
        "name",
        &[("delta.dataSkippingStatsColumns", "id,info.name")],
    );
    let column_names = config.physical_stats_column_names(None);
    assert_eq!(
        column_names,
        vec![ColumnName::new(["phys_id"]), ColumnName::new(["phys_info", "phys_name"])],
    );
}

#[test]
fn test_physical_stats_column_names_skips_nonexistent_data_skipping_stats_column() {
    let config = create_table_config_with_column_mapping_and_props(
        nested_schema_with_column_mapping(),
        "name",
        &[("delta.dataSkippingStatsColumns", "id,nonexistent")],
    );
    let column_names = config.physical_stats_column_names(None);
    assert_eq!(column_names, vec![ColumnName::new(["phys_id"])]);
}

fn plain_nested_schema() -> StructType {
    StructType::new_unchecked(vec![
        StructField::nullable("id", DataType::long()),
        StructField::nullable(
            "info",
            DataType::struct_type_unchecked(vec![
                StructField::nullable("name", DataType::string()),
                StructField::nullable("age", DataType::integer()),
            ]),
        ),
    ])
}

fn plain_schema_with(inner: Option<DataType>) -> StructType {
    let mut fields = vec![StructField::nullable("id", DataType::long())];
    if let Some(t) = inner {
        fields.push(StructField::nullable("inner", t));
    }
    fields.push(StructField::nullable("name", DataType::string()));
    StructType::new_unchecked(fields)
}

fn mapped_schema_with(inner: Option<DataType>) -> StructType {
    let mut fields = vec![mapped_field("id", DataType::long(), 1, "phys_id")];
    if let Some(t) = inner {
        fields.push(mapped_field("inner", t, 3, "phys_inner"));
    }
    fields.push(mapped_field("name", DataType::string(), 2, "phys_name"));
    StructType::new_unchecked(fields)
}

#[test]
fn test_physical_stats_column_names_all_schemas() {
    let flat = || vec![ColumnName::new(["id"]), ColumnName::new(["name"])];
    let physical = || vec![ColumnName::new(["phys_id"]), ColumnName::new(["phys_name"])];
    let nested = || {
        vec![
            ColumnName::new(["phys_id"]),
            ColumnName::new(["phys_info", "phys_name"]),
            ColumnName::new(["phys_info", "phys_age"]),
        ]
    };
    let map = || Some(DataType::mapping(DataType::string(), DataType::string(), true));
    let array = || Some(DataType::array(DataType::string(), true));
    let cases = [
        (plain_schema_with(None), "none", flat()),
        (mapped_schema_with(None), "name", physical()),
        (mapped_schema_with(None), "id", physical()),
        (
            plain_nested_schema(),
            "none",
            vec![
                ColumnName::new(["id"]),
                ColumnName::new(["info", "name"]),
                ColumnName::new(["info", "age"]),
            ],
        ),
        (nested_schema_with_column_mapping(), "name", nested()),
        (nested_schema_with_column_mapping(), "id", nested()),
        (plain_schema_with(map()), "none", flat()),
        (mapped_schema_with(map()), "name", physical()),
        (mapped_schema_with(map()), "id", physical()),
        (plain_schema_with(array()), "none", flat()),
        (mapped_schema_with(array()), "name", physical()),
        (mapped_schema_with(array()), "id", physical()),
    ];
    for (schema, mode, expected_physical) in cases {
        let config = create_table_config_with_column_mapping(schema, mode);
        let physical_names = config.physical_stats_column_names(None);
        assert_eq!(
            physical_names, expected_physical,
            "Incorrect physical column names for mode '{mode}'"
        );
    }
}

#[test]
fn test_clustered_table_writes() {
    let config = create_mock_table_config(
        &[],
        &[TableFeature::ClusteredTable, TableFeature::DomainMetadata],
    );
    assert!(
        config.ensure_operation_supported(Operation::Write).is_ok(),
        "ClusteredTable with DomainMetadata should be supported for writes"
    );
}

#[test]
fn missing_mapping_annotations_are_refused() {
    let protocol = Protocol::try_new_legacy(2, 5).unwrap();
    let result =
        try_table(value_schema(), vec![], &[(COLUMN_MAPPING_MODE, "name")], protocol);
    assert!(matches!(result, Err(Error::InvalidColumnMappingMode(_))));
}

#[test]
fn row_tracking_is_written_unless_suspended() {
    let features = [TableFeature::RowTracking, TableFeature::DomainMetadata];
    let config = create_mock_table_config(&[("delta.enableRowTracking", "true")], &features);
    assert!(config.should_write_row_tracking());
    assert!(!config.is_row_tracking_suspended());
    let config = create_mock_table_config(
        &[("delta.rowTrackingSuspended", "true")],
        &features,
    );
    assert!(!config.should_write_row_tracking());
    assert!(config.is_row_tracking_suspended());
}

#[test]
fn statistics_have_counts_and_bounds() {
    let config = value_table(&[], Protocol::try_new_legacy(1, 2).unwrap());
    let stats = config.build_expected_stats_schemas(None, None);
    let names: Vec<&str> = stats.fields().iter().map(|f| f.name().as_str()).collect();
    assert_eq!(
        names,
        vec!["numRecords", "nullCount", "minValues", "maxValues", "tightBounds"]
    );
    let counts = struct_field(&stats, "nullCount");
    assert_eq!(counts.field("value").unwrap().data_type(), &DataType::long());
    let mins = struct_field(&stats, "minValues");
    assert_eq!(mins.field("value").unwrap().data_type(), &DataType::integer());
}

#[test]
fn required_columns_have_statistics_beyond_the_limit() {
    let schema = StructType::new_unchecked(vec![
        StructField::nullable("a", DataType::long()),
        StructField::nullable("b", DataType::long()),
        StructField::nullable("c", DataType::long()),
    ]);
    let config = try_table(
        schema,
        vec![],
        &[("delta.dataSkippingNumIndexedCols", "1")],
        Protocol::try_new_legacy(1, 2).unwrap(),
    )
    .unwrap();
    assert_eq!(config.physical_stats_column_names(None), vec![ColumnName::new(["a"])]);
    let required = vec![ColumnName::new(["c"])];
    assert_eq!(
        config.physical_stats_column_names(Some(&required)),
        vec![ColumnName::new(["a"]), ColumnName::new(["c"])]
    );
}

#[test]
fn partition_columns_have_no_statistics() {
    let schema = StructType::new_unchecked(vec![
        StructField::nullable("a", DataType::long()),
        StructField::nullable("day", DataType::string()),
        StructField::nullable("b", DataType::long()),
    ]);
    let table = |properties: &[(&str, &str)]| {
        let protocol = Protocol::try_new_legacy(1, 2).unwrap();
        try_table(schema.clone(), vec!["day".to_string()], properties, protocol).unwrap()
    };
    let both = vec![ColumnName::new(["a"]), ColumnName::new(["b"])];
    assert_eq!(table(&[]).physical_stats_column_names(None), both);
    let required = vec![ColumnName::new(["day"])];
    assert_eq!(table(&[]).physical_stats_column_names(Some(&required)), both);
    let limited = table(&[("delta.dataSkippingNumIndexedCols", "2")]);
    assert_eq!(limited.physical_stats_column_names(None), both);
    let listed = table(&[("delta.dataSkippingStatsColumns", "day,b")]);
    assert_eq!(listed.physical_stats_column_names(None), vec![ColumnName::new(["b"])]);
}
