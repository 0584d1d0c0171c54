use delta_kernel::actions::Protocol;
use delta_kernel::commit_plan::{CommitAction, CommitInputs};
use delta_kernel::create_table::{
    apply_clustering_for_table_create, apply_data_layout, ensure_table_does_not_exist,
    maybe_apply_column_mapping_for_table_create, maybe_auto_enable_property_driven_features,
    maybe_enable_ict_for_catalog_managed, maybe_enable_timestamp_ntz, maybe_enable_variant_type,
    validate_extract_table_features_and_properties, LogListing, ValidatedTableProperties,
};
use delta_kernel::create_table_builder::{
    create_table, CreateTableTransactionBuilder, TablePlace, CREATE_TABLE_OPERATION,
};
use delta_kernel::data_layout::{
    create_clustering_domain_metadata, validate_partition_columns, DataLayout,
    CLUSTERING_DOMAIN_NAME,
};
use delta_kernel::error::{DeltaResult, Error};
use delta_kernel::expressions::ColumnName;
use delta_kernel::schema::{DataType, MetadataValue, PrimitiveType, StructField, StructType};
use delta_kernel::schema_transform::ColumnMetadataKey;
use delta_kernel::string_map::StringMap;
use delta_kernel::table_features::{ColumnMappingMode, FeatureType, TableFeature};
use delta_kernel::table_properties::{ENABLE_ICEBERG_COMPAT_V1, ENABLE_IN_COMMIT_TIMESTAMPS};
use delta_kernel::transaction::{CreateTable, Transaction};

fn config(pairs: &[(&str, &str)]) -> StringMap<String> {
    let mut map = StringMap::new();
    for (k, v) in pairs {
        map.insert(k.to_string(), v.to_string());
    }
    map
}

fn date() -> DataType {
    DataType::Primitive(PrimitiveType::Date)
}

fn timestamp_ntz() -> DataType {
    DataType::Primitive(PrimitiveType::TimestampNtz)
}

fn test_schema() -> StructType {
    StructType::new_unchecked(vec![StructField::new("id", DataType::integer(), false)])
}

fn assert_result_error_with_message<T>(result: DeltaResult<T>, message: &str) {
    match result {
        Ok(_) => panic!("Expected an error with the message: {message}"),
        Err(e) => {
            let text = e.to_string();
            assert!(text.contains(message), "Expected:\t{message}\nBut got:\t{text}");
        }
    }
}

fn nothing_validated() -> ValidatedTableProperties {
    ValidatedTableProperties {
        properties: StringMap::new(),
        reader_features: vec![],
        writer_features: vec![],
    }
}

#[test]
fn test_basic_builder_creation() {
    let builder =
        CreateTableTransactionBuilder::new("/path/to/table", test_schema(), "TestApp/1.0");
    assert_eq!(builder.path, "/path/to/table");
    assert_eq!(builder.engine_info, "TestApp/1.0");
    assert!(builder.table_properties.is_empty());
}

#[test]
fn test_nested_path_builder_creation() {
    let builder =
        CreateTableTransactionBuilder::new("/path/to/table/nested", test_schema(), "TestApp/1.0");
    assert_eq!(builder.path, "/path/to/table/nested");
}

#[test]
fn test_with_table_properties() {
    let builder =
        CreateTableTransactionBuilder::new("/path/to/table", test_schema(), "TestApp/1.0")
            .with_table_properties([("key1", "value1")]);
    assert_eq!(builder.table_properties.get("key1"), Some(&"value1".to_string()));
}

#[test]
fn test_with_multiple_table_properties() {
    let builder =
        CreateTableTransactionBuilder::new("/path/to/table", test_schema(), "TestApp/1.0")
            .with_table_properties([("key1", "value1")])
            .with_table_properties([("key2", "value2")]);
    assert_eq!(builder.table_properties.get("key1"), Some(&"value1".to_string()));
    assert_eq!(builder.table_properties.get("key2"), Some(&"value2".to_string()));
}

#[test]
fn later_table_properties_replace_earlier_ones() {
    let builder = create_table("/path/to/table", test_schema(), "TestApp/1.0")
        .with_table_properties([("key", "old"), ("other", "x")])
        .with_table_properties([("key", "new")]);
    assert_eq!(builder.table_properties.get("key"), Some(&"new".to_string()));
    assert_eq!(builder.table_properties.get("other"), Some(&"x".to_string()));
    assert_eq!(builder.table_properties.len(), 2);
}

#[test]
fn test_validate_supported_properties() {
    let result = validate_extract_table_features_and_properties(StringMap::new());
    assert!(result.is_ok());
    let validated = result.unwrap();
    assert!(validated.properties.is_empty());
    assert!(validated.reader_features.is_empty());
    assert!(validated.writer_features.is_empty());

    let properties = config(&[("myapp.version", "1.0"), ("custom.setting", "value")]);
    let result = validate_extract_table_features_and_properties(properties);
    assert!(result.is_ok());
    let validated = result.unwrap();
    assert_eq!(validated.properties.len(), 2);
    assert_eq!(validated.properties.get("myapp.version"), Some(&"1.0".to_string()));
    assert_eq!(validated.properties.get("custom.setting"), Some(&"value".to_string()));
}

#[test]
fn test_validate_unsupported_properties() {
    assert_result_error_with_message(
        validate_extract_table_features_and_properties(config(&[(
            ENABLE_ICEBERG_COMPAT_V1,
            "true",
        )])),
        "Setting delta property 'delta.enableIcebergCompatV1' is not supported",
    );
    assert_result_error_with_message(
        validate_extract_table_features_and_properties(config(&[(
            "delta.feature.identityColumns",
            "supported",
        )])),
        "Enabling feature 'identityColumns' via 'delta.feature.identityColumns' is not supported",
    );
    assert_result_error_with_message(
        validate_extract_table_features_and_properties(config(&[(
            "delta.feature.clustering",
            "supported",
        )])),
        "Enabling feature 'clustering' via 'delta.feature.clustering' is not supported",
    );
    assert_result_error_with_message(
        validate_extract_table_features_and_properties(config(&[
            ("myapp.version", "1.0"),
            (ENABLE_ICEBERG_COMPAT_V1, "true"),
        ])),
        "Setting delta property 'delta.enableIcebergCompatV1' is not supported",
    );
}

#[test]
fn feature_signals_need_the_right_value() {
    assert!(validate_extract_table_features_and_properties(config(&[(
        "delta.feature.deletionVectors",
        "enabled",
    )]))
    .is_err());
}

#[test]
fn test_clustering_support_valid() {
    let schema = StructType::new_unchecked(vec![
        StructField::new("id", DataType::integer(), false),
        StructField::new("name", DataType::string(), true),
    ]);
    let mut reader_features = vec![];
    let mut writer_features = vec![];
    let dm = apply_clustering_for_table_create(
        &schema,
        &vec![ColumnName::new(["id"])],
        &mut reader_features,
        &mut writer_features,
    )
    .unwrap();

    assert_eq!(dm.domain(), CLUSTERING_DOMAIN_NAME);
    assert!(writer_features.contains(&TableFeature::DomainMetadata));
    assert!(writer_features.contains(&TableFeature::ClusteredTable));
    assert!(reader_features.is_empty());
}

#[test]
fn test_clustering_support_multiple_columns() {
    let schema = StructType::new_unchecked(vec![
        StructField::new("id", DataType::integer(), false),
        StructField::new("date", DataType::string(), true),
        StructField::new("region", DataType::string(), true),
    ]);
    let mut reader_features = vec![];
    let mut writer_features = vec![];
    let dm = apply_clustering_for_table_create(
        &schema,
        &vec![ColumnName::new(["id"]), ColumnName::new(["date"])],
        &mut reader_features,
        &mut writer_features,
    )
    .unwrap();

    let config: serde_json::Value = serde_json::from_str(dm.configuration()).unwrap();
    let clustering_cols = config["clusteringColumns"].as_array().unwrap();
    let column = |name: &str| {
        serde_json::Value::Array(vec![serde_json::Value::String(name.to_string())])
    };
    assert_eq!(clustering_cols.len(), 2);
    assert_eq!(clustering_cols[0], column("id"));
    assert_eq!(clustering_cols[1], column("date"));
}

#[test]
fn clustering_columns_are_escaped() {
    let columns = vec![ColumnName::new(["a\"b", "tab\there"]), ColumnName::new(["c"])];
    let dm = create_clustering_domain_metadata(&columns);
    assert_eq!(
        dm.configuration(),
        "{\"clusteringColumns\":[[\"a\\\"b\",\"tab\\there\"],[\"c\"]]}"
    );
    let config: serde_json::Value = serde_json::from_str(dm.configuration()).unwrap();
    assert_eq!(config["clusteringColumns"][0][0].as_str(), Some("a\"b"));
    assert_eq!(config["clusteringColumns"][0][1].as_str(), Some("tab\there"));
}

#[test]
fn test_clustering_column_not_in_schema() {
    let mut reader_features = vec![];
    let mut writer_features = vec![];
    let result = apply_clustering_for_table_create(
        &test_schema(),
        &vec![ColumnName::new(["nonexistent"])],
        &mut reader_features,
        &mut writer_features,
    );
    assert!(result.is_err());
    assert!(result.unwrap_err().to_string().contains("not found in schema"));
    assert_eq!(reader_features, vec![]);
    assert_eq!(writer_features, vec![]);
}

#[test]
fn test_clustering_nested_column_accepted() {
    let address = DataType::struct_type_unchecked(vec![
        StructField::new("city", DataType::string(), true),
        StructField::new("zip", DataType::string(), true),
    ]);
    let schema = StructType::new_unchecked(vec![
        StructField::new("id", DataType::integer(), false),
        StructField::new("address", address, true),
    ]);
    let mut reader_features = vec![];
    let mut writer_features = vec![];
    let dm = apply_clustering_for_table_create(
        &schema,
        &vec![ColumnName::new(["address", "city"])],
        &mut reader_features,
        &mut writer_features,
    )
    .unwrap();

    assert_eq!(dm.domain(), CLUSTERING_DOMAIN_NAME);
    assert!(writer_features.contains(&TableFeature::ClusteredTable));
}

#[test]
fn test_with_data_layout() {
    for (layout, expect_clustered, expect_partitioned) in [
        (DataLayout::clustered(["id"]), true, false),
        (DataLayout::partitioned(["id"]), false, true),
        (DataLayout::default(), false, false),
    ] {
        let builder =
            CreateTableTransactionBuilder::new("/path/to/table", test_schema(), "TestApp/1.0")
                .with_data_layout(layout);
        assert_eq!(builder.data_layout.is_clustered(), expect_clustered);
        assert_eq!(builder.data_layout.is_partitioned(), expect_partitioned);
    }
}

#[test]
fn test_schema_driven_feature_auto_enablement() {
    let id = || StructField::new("id", DataType::integer(), false);
    let nested = |inner: StructField| {
        StructField::new("nested", DataType::struct_type_unchecked(vec![inner]), true)
    };
    let variant = |name: &str| StructField::new(name, DataType::unshredded_variant(), true);
    let ntz = |name: &str| StructField::new(name, timestamp_ntz(), true);
    let cases = [
        (vec![id(), variant("v")], vec![TableFeature::VariantType]),
        (vec![id(), nested(variant("inner_v"))], vec![TableFeature::VariantType]),
        (vec![id(), ntz("ts")], vec![TableFeature::TimestampWithoutTimezone]),
        (vec![id(), nested(ntz("inner_ts"))], vec![TableFeature::TimestampWithoutTimezone]),
        (
            vec![id(), variant("v"), ntz("ts")],
            vec![TableFeature::VariantType, TableFeature::TimestampWithoutTimezone],
        ),
        (vec![id()], vec![]),
    ];
    for (fields, expected_features) in cases {
        let schema = StructType::new_unchecked(fields);
        let mut validated = nothing_validated();
        maybe_enable_variant_type(&schema, &mut validated);
        maybe_enable_timestamp_ntz(&schema, &mut validated);
        for feature in &expected_features {
            assert!(
                validated.reader_features.contains(feature),
                "Expected {feature:?} in reader_features"
            );
            assert!(
                validated.writer_features.contains(feature),
                "Expected {feature:?} in writer_features"
            );
        }
        assert_eq!(validated.reader_features.len(), expected_features.len());
        assert_eq!(validated.writer_features.len(), expected_features.len());
    }
}

#[test]
fn test_ict_support_and_enablement() {
    let cases: [(&[(&str, &str)], bool, bool); 4] = [
        (&[("delta.enableInCommitTimestamps", "true")], true, true),
        (&[("delta.enableInCommitTimestamps", "false")], false, true),
        (&[], false, false),
        (&[("delta.feature.inCommitTimestamp", "supported")], true, false),
    ];
    for (properties, expect_in_writer_features, expect_property_preserved) in cases {
        let mut validated =
            validate_extract_table_features_and_properties(config(properties)).unwrap();
        maybe_auto_enable_property_driven_features(&mut validated);
        assert_eq!(
            validated.writer_features.contains(&TableFeature::InCommitTimestamp),
            expect_in_writer_features,
        );
        assert_eq!(
            validated.properties.contains_key(ENABLE_IN_COMMIT_TIMESTAMPS),
            expect_property_preserved,
        );
        assert!(
            validated.reader_features.is_empty(),
            "InCommitTimestamp is writer-only, reader_features should always be empty"
        );
    }
}

#[test]
fn test_feature_signal_accepted() {
    for (feature, feature_name) in [
        (TableFeature::VacuumProtocolCheck, "vacuumProtocolCheck"),
        (TableFeature::DomainMetadata, "domainMetadata"),
        (TableFeature::ColumnMapping, "columnMapping"),
        (TableFeature::InCommitTimestamp, "inCommitTimestamp"),
        (TableFeature::DeletionVectors, "deletionVectors"),
        (TableFeature::V2Checkpoint, "v2Checkpoint"),
        (TableFeature::AppendOnly, "appendOnly"),
        (TableFeature::ChangeDataFeed, "changeDataFeed"),
        (TableFeature::TypeWidening, "typeWidening"),
        (TableFeature::CatalogManaged, "catalogManaged"),
    ] {
        let key = format!("delta.feature.{feature_name}");
        let properties = config(&[(key.as_str(), "supported")]);
        let validated = validate_extract_table_features_and_properties(properties).unwrap();
        assert!(
            validated.properties.is_empty(),
            "Feature signal should be removed from properties"
        );
        assert!(
            validated.writer_features.contains(&feature),
            "{feature:?} should be in writer_features"
        );
        match feature.feature_type() {
            FeatureType::ReaderWriter => assert!(
                validated.reader_features.contains(&feature),
                "{feature:?} is ReaderWriter but missing from reader_features"
            ),
            _ => assert!(
                validated.reader_features.is_empty(),
                "{feature:?} is WriterOnly but reader_features is not empty"
            ),
        }
    }
}

fn multi_column_schema() -> StructType {
    StructType::new_unchecked(vec![
        StructField::new("id", DataType::integer(), false),
        StructField::new("name", DataType::string(), true),
        StructField::new("date", date(), true),
    ])
}

#[test]
fn test_apply_data_layout() {
    let cases = [
        (DataLayout::default(), false, None, vec![]),
        (
            DataLayout::clustered(["id"]),
            true,
            None,
            vec![TableFeature::DomainMetadata, TableFeature::ClusteredTable],
        ),
        (
            DataLayout::partitioned(["date"]),
            false,
            Some(vec![ColumnName::new(["date"])]),
            vec![],
        ),
        (
            DataLayout::partitioned(["id", "date"]),
            false,
            Some(vec![ColumnName::new(["id"]), ColumnName::new(["date"])]),
            vec![],
        ),
    ];
    for (layout, clustered, expected_partition_columns, expected_writer_features) in cases {
        let mut validated = nothing_validated();
        let result = apply_data_layout(
            &layout,
            &multi_column_schema(),
            ColumnMappingMode::NoMapping,
            &mut validated,
        )
        .unwrap();
        assert_eq!(!result.system_domain_metadata.is_empty(), clustered);
        assert_eq!(result.clustering_columns.is_some(), clustered);
        assert_eq!(result.partition_columns, expected_partition_columns);
        for feature in &expected_writer_features {
            assert!(
                validated.writer_features.contains(feature),
                "Expected {feature:?} in writer_features"
            );
        }
    }
}

#[test]
fn test_apply_data_layout_validation_errors() {
    for (layout, expected_error) in [
        (DataLayout::clustered(["nonexistent"]), "not found in schema"),
        (DataLayout::partitioned(["nonexistent"]), "not found in schema"),
        (DataLayout::partitioned(["id", "id"]), "Duplicate partition column"),
        (DataLayout::Partitioned { columns: vec![] }, "at least one column"),
        (
            DataLayout::partitioned(["id", "name", "date"]),
            "at least one non-partition column",
        ),
    ] {
        let mut validated = nothing_validated();
        let result = apply_data_layout(
            &layout,
            &multi_column_schema(),
            ColumnMappingMode::NoMapping,
            &mut validated,
        );
        assert!(result.is_err());
        assert!(
            result.unwrap_err().to_string().contains(expected_error),
            "Expected error containing '{expected_error}'"
        );
    }
}

#[test]
fn test_validate_partition_columns_nested_rejected() {
    let address = DataType::struct_type_unchecked(vec![StructField::new(
        "city",
        DataType::string(),
        true,
    )]);
    let schema = StructType::new_unchecked(vec![
        StructField::new("id", DataType::integer(), false),
        StructField::new("address", address, true),
    ]);
    let columns = vec![ColumnName::new(["address", "city"])];
    let result = validate_partition_columns(&schema, &columns);
    assert!(result.is_err());
    assert!(result
        .unwrap_err()
        .to_string()
        .contains("must be a top-level column"));
}

#[test]
fn test_validate_partition_columns_complex_types_rejected() {
    let cases = [
        (
            "struct_col",
            DataType::struct_type_unchecked(vec![StructField::new(
                "inner",
                DataType::string(),
                false,
            )]),
        ),
        ("array_col", DataType::array(DataType::integer(), false)),
        ("map_col", DataType::mapping(DataType::string(), DataType::integer(), false)),
    ];
    for (col_name, data_type) in cases {
        let schema = StructType::new_unchecked(vec![
            StructField::new("id", DataType::integer(), false),
            StructField::new(col_name, data_type, false),
        ]);
        let columns = vec![ColumnName::new([col_name])];
        let result = validate_partition_columns(&schema, &columns);
        assert!(result.is_err());
        assert!(result.unwrap_err().to_string().contains("non-primitive type"));
    }
}

#[test]
fn test_validate_partition_columns_primitive_types_accepted() {
    for data_type in [
        DataType::integer(),
        DataType::string(),
        date(),
        DataType::Primitive(PrimitiveType::Timestamp),
        DataType::boolean(),
        DataType::long(),
    ] {
        let schema = StructType::new_unchecked(vec![
            StructField::new("id", DataType::integer(), false),
            StructField::new("col", data_type, false),
        ]);
        let columns = vec![ColumnName::new(["col"])];
        assert!(validate_partition_columns(&schema, &columns).is_ok());
    }
}

#[test]
fn test_catalog_managed_auto_enables_ict() {
    let properties = config(&[("delta.feature.catalogManaged", "supported")]);
    let mut validated = validate_extract_table_features_and_properties(properties).unwrap();
    maybe_auto_enable_property_driven_features(&mut validated);
    maybe_enable_ict_for_catalog_managed(&mut validated).unwrap();

    assert!(
        validated.writer_features.contains(&TableFeature::InCommitTimestamp),
        "ICT should be auto-added to writer_features"
    );
    assert_eq!(
        validated.properties.get(ENABLE_IN_COMMIT_TIMESTAMPS),
        Some(&"true".to_string()),
        "delta.enableInCommitTimestamps should be set to true"
    );
}

#[test]
fn test_catalog_managed_with_ict_true_succeeds() {
    let properties = config(&[
        ("delta.feature.catalogManaged", "supported"),
        ("delta.enableInCommitTimestamps", "true"),
    ]);
    let mut validated = validate_extract_table_features_and_properties(properties).unwrap();
    maybe_auto_enable_property_driven_features(&mut validated);
    maybe_enable_ict_for_catalog_managed(&mut validated).unwrap();

    assert!(validated.writer_features.contains(&TableFeature::InCommitTimestamp));
    assert_eq!(
        validated.properties.get(ENABLE_IN_COMMIT_TIMESTAMPS),
        Some(&"true".to_string()),
    );
}

#[test]
fn test_catalog_managed_with_ict_false_fails() {
    let properties = config(&[
        ("delta.feature.catalogManaged", "supported"),
        ("delta.enableInCommitTimestamps", "false"),
    ]);
    let mut validated = validate_extract_table_features_and_properties(properties).unwrap();
    maybe_auto_enable_property_driven_features(&mut validated);
    let err = maybe_enable_ict_for_catalog_managed(&mut validated).unwrap_err();
    assert!(
        err.to_string().contains("enableInCommitTimestamps"),
        "expected ICT conflict error, got: {err:?}"
    );
}

#[test]
fn column_mapping_gives_distinct_physical_names() {
    let mut validated = nothing_validated();
    validated
        .properties
        .insert("delta.columnMapping.mode".to_string(), "name".to_string());
    let (schema, mode) =
        maybe_apply_column_mapping_for_table_create(&multi_column_schema(), &mut validated)
            .unwrap();
    assert_eq!(mode, ColumnMappingMode::Name);
    let name = |i: usize| match schema.fields()[i]
        .get_config_value(&ColumnMetadataKey::ColumnMappingPhysicalName)
    {
        Some(MetadataValue::String(s)) => s.clone(),
        _ => panic!("no physical name"),
    };
    assert_ne!(name(0), name(1));
    assert_ne!(name(1), name(2));
    assert!(name(0).starts_with("col-"));
    assert_eq!(
        schema.fields()[2].get_config_value(&ColumnMetadataKey::ColumnMappingId),
        Some(&MetadataValue::Number(3))
    );
    assert!(validated.writer_features.contains(&TableFeature::ColumnMapping));
    assert!(validated.reader_features.contains(&TableFeature::ColumnMapping));
    assert_eq!(
        validated.properties.get("delta.columnMapping.maxColumnId"),
        Some(&"3".to_string())
    );

    let mut validated = nothing_validated();
    validated
        .properties
        .insert("delta.columnMapping.mode".to_string(), "sideways".to_string());
    assert!(
        maybe_apply_column_mapping_for_table_create(&multi_column_schema(), &mut validated)
            .is_err()
    );
    assert_eq!(validated.writer_features, vec![]);
}

#[test]
fn refused_column_mapping_leaves_the_feature() {
    let twice = StructType {
        fields: vec![
            StructField::nullable("a", DataType::long()),
            StructField::nullable("a", DataType::long()),
        ],
    };
    let mut validated = nothing_validated();
    validated
        .properties
        .insert("delta.columnMapping.mode".to_string(), "id".to_string());
    let result = maybe_apply_column_mapping_for_table_create(&twice, &mut validated);
    assert_eq!(result, Err(Error::Schema("Duplicate field name: a".to_string())));
    assert_eq!(validated.reader_features, vec![TableFeature::ColumnMapping]);
    assert_eq!(validated.writer_features, vec![TableFeature::ColumnMapping]);
    assert_eq!(validated.properties.get("delta.columnMapping.maxColumnId"), None);
}

#[test]
fn existing_tables_are_not_created_again() {
    let path = "memory:///table/";
    assert_eq!(ensure_table_does_not_exist(&LogListing::Empty, path), Ok(()));
    let missing = || Error::FileNotFound("gone".to_string());
    assert_eq!(ensure_table_does_not_exist(&LogListing::Failed(missing()), path), Ok(()));
    assert_eq!(ensure_table_does_not_exist(&LogListing::FirstFailed(missing()), path), Ok(()));
    let broken = || Error::IOError("broken".to_string());
    assert_eq!(
        ensure_table_does_not_exist(&LogListing::Failed(broken()), path),
        Err(broken())
    );
    assert_eq!(
        ensure_table_does_not_exist(&LogListing::FirstFailed(broken()), path),
        Err(broken())
    );
    assert_eq!(
        ensure_table_does_not_exist(&LogListing::HasFiles, path),
        Err(Error::generic("Table already exists at path: memory:///table/"))
    );
}

fn build(
    builder: CreateTableTransactionBuilder,
    listing: &LogListing,
) -> DeltaResult<Transaction<CreateTable, u64>> {
    builder.build("memory:///table/".to_string(), listing, false, 5, 6)
}

#[test]
fn builders_check_their_place_and_schema() {
    let builder = || create_table("memory:///table/", test_schema(), "TestApp/1.0");
    assert_result_error_with_message(
        build(builder(), &LogListing::HasFiles),
        "Table already exists at path: memory:///table/",
    );
    assert!(builder()
        .build::<u64>("not a url".to_string(), &LogListing::Empty, false, 5, 6)
        .is_err());
    let empty = create_table("memory:///table/", StructType::new_unchecked(vec![]), "TestApp/1.0");
    assert!(build(empty, &LogListing::Empty).is_err());
}

#[test]
fn created_tables_start_with_protocol_and_metadata() {
    let builder = create_table("memory:///table/", multi_column_schema(), "TestApp/1.0")
        .with_table_properties([("delta.enableDeletionVectors", "true"), ("app", "x")])
        .with_data_layout(DataLayout::clustered(["id"]));
    let txn = build(builder, &LogListing::Empty).unwrap();
    assert!(txn.is_create_table());
    assert_eq!(txn.get_commit_version(), 0);
    let config = &txn.effective_table_config;
    assert_eq!(
        config.protocol(),
        &Protocol::try_new_modern(
            vec![TableFeature::DeletionVectors],
            vec![
                TableFeature::DomainMetadata,
                TableFeature::ClusteredTable,
                TableFeature::DeletionVectors,
            ],
        )
        .unwrap()
    );
    assert_eq!(config.metadata().created_time(), Some(5));
    assert_eq!(config.metadata().configuration().get("app"), Some(&"x".to_string()));

    let plan = txn
        .prepare_commit(&CommitInputs {
            previous_in_commit_timestamp: None,
            row_id_high_water_mark: None,
            existing_domains: StringMap::new(),
            file_stats: vec![],
        })
        .unwrap();
    assert_eq!(plan.actions.len(), 4);
    assert!(matches!(&plan.actions[0], CommitAction::CommitInfo(info)
        if info.operation == Some(CREATE_TABLE_OPERATION.to_string())
            && info.engine_info == Some("TestApp/1.0".to_string())
            && info.timestamp == Some(6)));
    assert!(matches!(&plan.actions[1], CommitAction::Protocol(p) if p == config.protocol()));
    assert!(matches!(&plan.actions[2], CommitAction::Metadata(m) if m == config.metadata()));
    assert!(matches!(&plan.actions[3], CommitAction::DomainMetadata(d)
        if d.domain() == CLUSTERING_DOMAIN_NAME));
    assert_eq!(plan.commit_metadata.log_root, "memory:///table/_delta_log/");
    assert_eq!(plan.commit_metadata.version, 0);
}

#[test]
fn a_given_identifier_and_given_names_fix_the_table() {
    let place = || TablePlace {
        table_root: "memory:///table/".to_string(),
        is_catalog_committer: false,
        id: "the-id".to_string(),
        created_time: 5,
        commit_timestamp: 6,
    };
    let names: Vec<String> = ["x", "y", "z"].iter().map(|n| n.to_string()).collect();
    let builder = || {
        create_table("memory:///table/", multi_column_schema(), "TestApp/1.0")
            .with_table_properties([("delta.columnMapping.mode", "id")])
            .with_data_layout(DataLayout::partitioned(["date"]))
    };
    let a: Transaction<CreateTable, u64> = builder().build_with(place(), &names).unwrap();
    let b: Transaction<CreateTable, u64> = builder().build_with(place(), &names).unwrap();
    assert_eq!(a.effective_table_config, b.effective_table_config);
    assert_eq!(a.effective_table_config.metadata().id(), "the-id");
    assert_eq!(
        a.effective_table_config.partition_columns(),
        &vec!["date".to_string()]
    );
    assert!(a.effective_table_config.physical_schema().field("col-z").is_some());
}
