use delta_kernel::action_schemas::{
    get_all_actions_schema, get_commit_schema, schema_contains_file_actions, ADD_NAME, CDC_NAME,
    CHECKPOINT_METADATA_NAME, DOMAIN_METADATA_NAME, METADATA_NAME, PROTOCOL_NAME, REMOVE_NAME,
};
use delta_kernel::actions::{
    parse_features, CommitInfo, DomainMetadata, Format, Metadata, Protocol, ProtocolRow,
    SetTransaction, Sidecar, KERNEL_VERSION,
};
use delta_kernel::error::Error;
use delta_kernel::scalars::Scalar;
use delta_kernel::schema::{DataType, StructField, StructType};
use delta_kernel::string_map::StringMap;
use delta_kernel::table_features::TableFeature;

fn string_map(value_contains_null: bool) -> DataType {
    DataType::mapping(DataType::string(), DataType::string(), value_contains_null)
}

fn config(pairs: &[(&str, &str)]) -> StringMap<String> {
    let mut map = StringMap::new();
    for (k, v) in pairs {
        map.insert(k.to_string(), v.to_string());
    }
    map
}

fn action(name: &str, fields: Vec<StructField>) -> StructType {
    StructType::new_unchecked(vec![StructField::nullable(
        name,
        DataType::struct_type_unchecked(fields),
    )])
}

fn tags_field() -> StructField {
    StructField::nullable("tags", string_map(false))
}

fn partition_values_field() -> StructField {
    StructField::nullable("partitionValues", string_map(false))
}

fn deletion_vector_field() -> StructField {
    StructField::nullable(
        "deletionVector",
        DataType::struct_type_unchecked(vec![
            StructField::not_null("storageType", DataType::string()),
            StructField::not_null("pathOrInlineDv", DataType::string()),
            StructField::nullable("offset", DataType::integer()),
            StructField::not_null("sizeInBytes", DataType::integer()),
            StructField::not_null("cardinality", DataType::long()),
        ]),
    )
}

fn id_schema() -> StructType {
    StructType::new_unchecked(vec![StructField::not_null("id", DataType::integer())])
}

#[test]
fn test_metadata_schema() {
    let schema = get_commit_schema()
        .project(&[METADATA_NAME])
        .expect("Couldn't get metaData field");
    let expected = action(
        "metaData",
        vec![
            StructField::not_null("id", DataType::string()),
            StructField::nullable("name", DataType::string()),
            StructField::nullable("description", DataType::string()),
            StructField::not_null(
                "format",
                DataType::struct_type_unchecked(vec![
                    StructField::not_null("provider", DataType::string()),
                    StructField::not_null("options", string_map(false)),
                ]),
            ),
            StructField::not_null("schemaString", DataType::string()),
            StructField::not_null(
                "partitionColumns",
                DataType::array(DataType::string(), false),
            ),
            StructField::nullable("createdTime", DataType::long()),
            StructField::not_null("configuration", string_map(false)),
        ],
    );
    assert_eq!(schema, expected);
}

#[test]
fn test_add_schema() {
    let schema = get_commit_schema()
        .project(&[ADD_NAME])
        .expect("Couldn't get add field");
    let expected = action(
        "add",
        vec![
            StructField::not_null("path", DataType::string()),
            StructField::not_null("partitionValues", string_map(true)),
            StructField::not_null("size", DataType::long()),
            StructField::not_null("modificationTime", DataType::long()),
            StructField::not_null("dataChange", DataType::boolean()),
            StructField::nullable("stats", DataType::string()),
            StructField::nullable("tags", string_map(true)),
            deletion_vector_field(),
            StructField::nullable("baseRowId", DataType::long()),
            StructField::nullable("defaultRowCommitVersion", DataType::long()),
            StructField::nullable("clusteringProvider", DataType::string()),
        ],
    );
    assert_eq!(schema, expected);
}

#[test]
fn test_remove_schema() {
    let schema = get_commit_schema()
        .project(&[REMOVE_NAME])
        .expect("Couldn't get remove field");
    let expected = action(
        "remove",
        vec![
            StructField::not_null("path", DataType::string()),
            StructField::nullable("deletionTimestamp", DataType::long()),
            StructField::not_null("dataChange", DataType::boolean()),
            StructField::nullable("extendedFileMetadata", DataType::boolean()),
            partition_values_field(),
            StructField::nullable("size", DataType::long()),
            StructField::nullable("stats", DataType::string()),
            tags_field(),
            deletion_vector_field(),
            StructField::nullable("baseRowId", DataType::long()),
            StructField::nullable("defaultRowCommitVersion", DataType::long()),
        ],
    );
    assert_eq!(schema, expected);
}

#[test]
fn test_cdc_schema() {
    let schema = get_commit_schema()
        .project(&[CDC_NAME])
        .expect("Couldn't get cdc field");
    let expected = action(
        "cdc",
        vec![
            StructField::not_null("path", DataType::string()),
            StructField::not_null("partitionValues", string_map(true)),
            StructField::not_null("size", DataType::long()),
            StructField::not_null("dataChange", DataType::boolean()),
            tags_field(),
        ],
    );
    assert_eq!(schema, expected);
}

#[test]
fn test_sidecar_schema() {
    let schema = Sidecar::to_schema();
    let expected = StructType::new_unchecked(vec![
        StructField::not_null("path", DataType::string()),
        StructField::not_null("sizeInBytes", DataType::long()),
        StructField::not_null("modificationTime", DataType::long()),
        tags_field(),
    ]);
    assert_eq!(schema, expected);
}

#[test]
fn test_checkpoint_metadata_schema() {
    let schema = get_all_actions_schema()
        .project(&[CHECKPOINT_METADATA_NAME])
        .expect("Couldn't get checkpointMetadata field");
    let expected = action(
        "checkpointMetadata",
        vec![StructField::not_null("version", DataType::long()), tags_field()],
    );
    assert_eq!(schema, expected);
}

#[test]
fn test_transaction_schema() {
    let schema = get_commit_schema()
        .project(&["txn"])
        .expect("Couldn't get transaction field");
    let expected = action(
        "txn",
        vec![
            StructField::not_null("appId", DataType::string()),
            StructField::not_null("version", DataType::long()),
            StructField::nullable("lastUpdated", DataType::long()),
        ],
    );
    assert_eq!(schema, expected);
}

#[test]
fn test_commit_info_schema() {
    let schema = get_commit_schema()
        .project(&["commitInfo"])
        .expect("Couldn't get commitInfo field");
    let expected = action(
        "commitInfo",
        vec![
            StructField::nullable("timestamp", DataType::long()),
            StructField::nullable("inCommitTimestamp", DataType::long()),
            StructField::nullable("operation", DataType::string()),
            StructField::nullable("operationParameters", string_map(false)),
            StructField::nullable("kernelVersion", DataType::string()),
            StructField::nullable("isBlindAppend", DataType::boolean()),
            StructField::nullable("engineInfo", DataType::string()),
            StructField::nullable("txnId", DataType::string()),
        ],
    );
    assert_eq!(schema, expected);
}

#[test]
fn test_domain_metadata_schema() {
    let schema = get_commit_schema()
        .project(&[DOMAIN_METADATA_NAME])
        .expect("Couldn't get domainMetadata field");
    let expected = action(
        "domainMetadata",
        vec![
            StructField::not_null("domain", DataType::string()),
            StructField::not_null("configuration", DataType::string()),
            StructField::not_null("removed", DataType::boolean()),
        ],
    );
    assert_eq!(schema, expected);
}

#[test]
fn test_validate_protocol() {
    let invalid_protocols = [
        Protocol {
            min_reader_version: 3,
            min_writer_version: 7,
            reader_features: None,
            writer_features: Some(vec![]),
        },
        Protocol {
            min_reader_version: 3,
            min_writer_version: 7,
            reader_features: Some(vec![]),
            writer_features: None,
        },
        Protocol {
            min_reader_version: 3,
            min_writer_version: 7,
            reader_features: None,
            writer_features: None,
        },
    ];
    for Protocol { min_reader_version, min_writer_version, reader_features, writer_features } in
        invalid_protocols
    {
        assert!(matches!(
            Protocol::try_new(
                min_reader_version,
                min_writer_version,
                reader_features,
                writer_features
            ),
            Err(Error::InvalidProtocol(_)),
        ));
    }
}

#[test]
fn test_validate_table_features_invalid() {
    let invalid_features = [
        (
            vec![TableFeature::DeletionVectors],
            vec![TableFeature::AppendOnly],
            "Reader features must contain only ReaderWriter features that are also listed in writer features",
        ),
        (
            vec![TableFeature::DeletionVectors],
            vec![],
            "Reader features must contain only ReaderWriter features that are also listed in writer features",
        ),
        (
            vec![],
            vec![TableFeature::DeletionVectors],
            "Writer features must be Writer-only or also listed in reader features",
        ),
        (
            vec![TableFeature::VariantType],
            vec![TableFeature::VariantType, TableFeature::DeletionVectors],
            "Writer features must be Writer-only or also listed in reader features",
        ),
        (
            vec![TableFeature::AppendOnly],
            vec![TableFeature::AppendOnly],
            "Reader features must contain only ReaderWriter features that are also listed in writer features",
        ),
    ];
    for (reader_features, writer_features, error_msg) in invalid_features {
        let res = Protocol::try_new_modern(reader_features, writer_features);
        assert!(
            matches!(&res, Err(Error::InvalidProtocol(error)) if error.as_str() == error_msg),
            "Expected:\t{error_msg}\nBut got:{res:?}\n"
        );
    }
}

#[test]
fn test_validate_table_features_unknown() {
    let protocol = Protocol::try_new_modern(
        vec![TableFeature::Unknown("unknown_reader".to_string())],
        vec![TableFeature::Unknown("unknown_reader".to_string())],
    );
    assert!(protocol.is_ok());

    let protocol = Protocol::try_new_modern(
        Vec::<TableFeature>::new(),
        vec![TableFeature::Unknown("unknown_writer".to_string())],
    );
    assert!(protocol.is_ok());
}

#[test]
fn test_validate_table_features_valid() {
    let valid_features = [
        (vec![TableFeature::DeletionVectors], vec![TableFeature::DeletionVectors]),
        (vec![], vec![TableFeature::AppendOnly]),
        (
            vec![TableFeature::VariantType],
            vec![TableFeature::VariantType, TableFeature::AppendOnly],
        ),
        (
            vec![TableFeature::Unknown("rw".to_string())],
            vec![
                TableFeature::Unknown("rw".to_string()),
                TableFeature::Unknown("w".to_string()),
            ],
        ),
        (vec![], vec![]),
    ];
    for (reader_features, writer_features) in valid_features {
        assert!(Protocol::try_new_modern(reader_features, writer_features).is_ok());
    }
}

#[test]
fn test_validate_legacy_column_mapping_valid() {
    let protocol = Protocol::try_new(
        2,
        7,
        None::<Vec<TableFeature>>,
        Some(vec![TableFeature::ColumnMapping]),
    );
    assert!(protocol.is_ok());
}

#[test]
fn test_validate_legacy_writer_only_features_valid() {
    let protocol = Protocol::try_new(
        1,
        7,
        None::<Vec<TableFeature>>,
        Some(vec![TableFeature::AppendOnly]),
    );
    assert!(protocol.is_ok());
}

#[test]
fn test_validate_legacy_column_mapping_with_writer_features_valid() {
    let protocol = Protocol::try_new(
        2,
        7,
        None::<Vec<TableFeature>>,
        Some(vec![TableFeature::AppendOnly, TableFeature::ColumnMapping]),
    );
    assert!(protocol.is_ok());
}

#[test]
fn test_validate_column_mapping_reader_v1_invalid() {
    let protocol = Protocol::try_new(
        1,
        7,
        None::<Vec<TableFeature>>,
        Some(vec![TableFeature::ColumnMapping]),
    );
    assert!(protocol.is_err());
}

#[test]
fn test_validate_multiple_readerwriter_features_reader_v2_invalid() {
    let protocol = Protocol::try_new(
        2,
        7,
        None::<Vec<TableFeature>>,
        Some(vec![TableFeature::ColumnMapping, TableFeature::DeletionVectors]),
    );
    assert!(protocol.is_err());
}

#[test]
fn test_parse_table_feature_never_fails() {
    let features = Some(vec!["".to_string(), "absurD_)(+13%^⚙️".to_string()]);
    let expected = Some(vec![
        TableFeature::unknown(""),
        TableFeature::unknown("absurD_)(+13%^⚙️"),
    ]);
    assert_eq!(parse_features(features), expected);
}

#[test]
fn test_into_engine_data() {
    let set_transaction = SetTransaction {
        app_id: "app_id".to_string(),
        version: 0,
        last_updated: None,
    };
    let schema = SetTransaction::to_schema();
    let names: Vec<&str> = schema.fields().iter().map(|f| f.name().as_str()).collect();
    assert_eq!(names, vec!["appId", "version", "lastUpdated"]);
    assert_eq!(
        set_transaction.row_values(),
        vec![
            Scalar::String("app_id".to_string()),
            Scalar::Long(0),
            Scalar::Null(DataType::long()),
        ]
    );
}

#[test]
fn test_commit_info_into_engine_data() {
    let commit_info = CommitInfo::new(0, None, None, None, false);
    let commit_info_txn_id = commit_info.txn_id.clone().unwrap();
    let values = commit_info.row_values();
    assert_eq!(values.len(), CommitInfo::to_schema().num_fields());
    assert_eq!(
        values,
        vec![
            Scalar::Long(0),
            Scalar::Null(DataType::long()),
            Scalar::String("UNKNOWN".to_string()),
            Scalar::string_map(&StringMap::new()),
            Scalar::String(format!("v{KERNEL_VERSION}")),
            Scalar::Null(DataType::boolean()),
            Scalar::Null(DataType::string()),
            Scalar::String(commit_info_txn_id),
        ]
    );
}

#[test]
fn test_domain_metadata_into_engine_data() {
    let domain_metadata = DomainMetadata {
        domain: "my.domain".to_string(),
        configuration: "config_value".to_string(),
        removed: false,
    };
    assert_eq!(
        domain_metadata.row_values(),
        vec![
            Scalar::String("my.domain".to_string()),
            Scalar::String("config_value".to_string()),
            Scalar::Boolean(false),
        ]
    );
}

#[test]
fn test_metadata_try_new() {
    let schema = id_schema();
    let properties = config(&[("key1", "value1")]);
    let metadata = Metadata::try_new(
        Some("test_table".to_string()),
        Some("description".to_string()),
        &schema,
        vec!["year".to_string()],
        1234567890,
        properties.clone(),
    )
    .unwrap();

    assert!(!metadata.id.is_empty());
    assert_eq!(metadata.name, Some("test_table".to_string()));
    assert_eq!(
        metadata.schema_string,
        "{\"type\":\"struct\",\"fields\":[{\"name\":\"id\",\"type\":\"integer\",\"nullable\":false,\"metadata\":{}}]}"
    );
    assert_eq!(metadata.created_time, Some(1234567890));
    assert_eq!(metadata.configuration, properties);
}

#[test]
fn test_metadata_try_new_default() {
    let metadata =
        Metadata::try_new(None, None, &id_schema(), vec![], 0, StringMap::new()).unwrap();
    assert!(!metadata.id.is_empty());
    assert_eq!(metadata.name, None);
    assert_eq!(metadata.description, None);
}

#[test]
fn test_metadata_unique_ids() {
    let m1 = Metadata::try_new(None, None, &id_schema(), vec![], 0, StringMap::new()).unwrap();
    let m2 = Metadata::try_new(None, None, &id_schema(), vec![], 0, StringMap::new()).unwrap();
    assert_ne!(m1.id, m2.id);
}

#[test]
fn test_format_try_from_scalar() {
    let format = Format {
        provider: "parquet".to_string(),
        options: config(&[("path", "/delta/table"), ("compressionType", "snappy")]),
    };
    let scalar = Scalar::try_from(format).unwrap();
    let Scalar::Struct(struct_data) = scalar else {
        panic!("Expected struct scalar");
    };
    assert_eq!(struct_data.fields()[0].name(), "provider");
    assert_eq!(struct_data.fields()[1].name(), "options");

    let Scalar::String(provider) = &struct_data.values()[0] else {
        panic!("Expected string provider");
    };
    assert_eq!(provider, "parquet");

    let Scalar::Mapping(map_data) = &struct_data.values()[1] else {
        panic!("Expected map options");
    };
    assert_eq!(map_data.pairs().len(), 2);
}

#[test]
fn test_format_default() {
    let format = Format::default();
    let expected = Format {
        provider: "parquet".to_string(),
        options: StringMap::new(),
    };
    assert_eq!(format, expected);
}

#[test]
fn test_format_empty_options() {
    let format = Format {
        provider: "parquet".to_string(),
        options: StringMap::new(),
    };
    let scalar = Scalar::try_from(format).unwrap();
    let Scalar::Struct(struct_data) = scalar else {
        panic!("Expected struct");
    };
    let Scalar::Mapping(map_data) = &struct_data.values()[1] else {
        panic!("Expected map");
    };
    assert!(map_data.pairs().is_empty());
}

#[test]
fn test_format_special_characters() {
    let format = Format {
        provider: "custom".to_string(),
        options: config(&[("path", "/path/with spaces"), ("unicode", "测试🎉"), ("empty", "")]),
    };
    let scalar = Scalar::try_from(format).unwrap();
    let Scalar::Struct(struct_data) = scalar else {
        panic!("Expected struct");
    };
    let Scalar::Mapping(map_data) = &struct_data.values()[1] else {
        panic!("Expected map");
    };
    assert_eq!(map_data.pairs().len(), 3);
}

#[test]
fn test_metadata_into_engine_data() {
    let metadata = Metadata::try_new(
        Some("test".to_string()),
        Some("my table".to_string()),
        &id_schema(),
        vec!["part".to_string()],
        123,
        config(&[("k", "v")]),
    )
    .unwrap();
    let id = metadata.id.clone();
    assert_eq!(
        metadata.row_values(),
        vec![
            Scalar::String(id),
            Scalar::String("test".to_string()),
            Scalar::String("my table".to_string()),
            Scalar::String("parquet".to_string()),
            Scalar::string_map(&StringMap::new()),
            Scalar::String("{\"type\":\"struct\",\"fields\":[{\"name\":\"id\",\"type\":\"integer\",\"nullable\":false,\"metadata\":{}}]}".to_string()),
            Scalar::string_list(&vec!["part".to_string()]),
            Scalar::Long(123),
            Scalar::string_map(&config(&[("k", "v")])),
        ]
    );
}

#[test]
fn test_metadata_with_log_schema() {
    let metadata = Metadata::try_new(
        Some("table".to_string()),
        None,
        &id_schema(),
        vec![],
        456,
        StringMap::new(),
    )
    .unwrap();
    let id = metadata.id.clone();
    let commit_schema = get_commit_schema().project(&[METADATA_NAME]).unwrap();
    assert_eq!(commit_schema.fields()[0].name(), "metaData");
    assert_eq!(
        metadata.row_values(),
        vec![
            Scalar::String(id),
            Scalar::String("table".to_string()),
            Scalar::Null(DataType::string()),
            Scalar::String("parquet".to_string()),
            Scalar::string_map(&StringMap::new()),
            Scalar::String("{\"type\":\"struct\",\"fields\":[{\"name\":\"id\",\"type\":\"integer\",\"nullable\":false,\"metadata\":{}}]}".to_string()),
            Scalar::string_list(&vec![]),
            Scalar::Long(456),
            Scalar::string_map(&StringMap::new()),
        ]
    );
}

fn feature_names(names: &[&str]) -> Scalar {
    Scalar::string_list(&names.iter().map(|n| n.to_string()).collect())
}

#[test]
fn test_protocol_into_engine_data() {
    let protocol = Protocol::try_new_modern(
        vec![TableFeature::DeletionVectors, TableFeature::ColumnMapping],
        vec![TableFeature::DeletionVectors, TableFeature::ColumnMapping],
    )
    .unwrap();
    let expected_schema = StructType::new_unchecked(vec![
        StructField::not_null("minReaderVersion", DataType::integer()),
        StructField::not_null("minWriterVersion", DataType::integer()),
        StructField::nullable("readerFeatures", DataType::array(DataType::string(), false)),
        StructField::nullable("writerFeatures", DataType::array(DataType::string(), false)),
    ]);
    assert_eq!(Protocol::to_schema(), expected_schema);
    assert_eq!(
        get_commit_schema().project(&[PROTOCOL_NAME]).unwrap(),
        StructType::new_unchecked(vec![StructField::nullable(
            "protocol",
            DataType::struct_of(expected_schema)
        )])
    );
    assert_eq!(
        protocol.row_values(),
        vec![
            Scalar::Integer(3),
            Scalar::Integer(7),
            feature_names(&["deletionVectors", "columnMapping"]),
            feature_names(&["deletionVectors", "columnMapping"]),
        ]
    );
}

#[test]
fn test_protocol_into_engine_data_empty_features() {
    let protocol =
        Protocol::try_new_modern(Vec::<TableFeature>::new(), Vec::<TableFeature>::new()).unwrap();
    let values = protocol.row_values();
    assert_eq!(values.len(), 4);
    assert_eq!(values[2], feature_names(&[]));
    assert_eq!(values[3], feature_names(&[]));
}

#[test]
fn test_protocol_into_engine_data_no_features() {
    let protocol = Protocol::try_new_legacy(1, 2).unwrap();
    let values = protocol.row_values();
    assert_eq!(values.len(), 4);
    assert!(matches!(values[2], Scalar::Null(_)));
    assert!(matches!(values[3], Scalar::Null(_)));
}

#[test]
fn test_schema_contains_file_actions_with_add() {
    let schema = get_commit_schema().project(&[ADD_NAME, PROTOCOL_NAME]).unwrap();
    assert!(schema_contains_file_actions(&schema));
    assert!(schema_contains_file_actions(&schema.project(&[ADD_NAME]).unwrap()));
}

#[test]
fn test_schema_contains_file_actions_with_remove() {
    let schema = get_commit_schema().project(&[REMOVE_NAME, METADATA_NAME]).unwrap();
    assert!(schema_contains_file_actions(&schema));
    assert!(schema_contains_file_actions(&schema.project(&[REMOVE_NAME]).unwrap()));
}

#[test]
fn test_schema_contains_file_actions_with_both() {
    let schema = get_commit_schema().project(&[ADD_NAME, REMOVE_NAME]).unwrap();
    assert!(schema_contains_file_actions(&schema));
}

#[test]
fn test_schema_contains_file_actions_with_neither() {
    let schema = get_commit_schema().project(&[PROTOCOL_NAME, METADATA_NAME]).unwrap();
    assert!(!schema_contains_file_actions(&schema));
}

#[test]
fn test_schema_contains_file_actions_empty_schema() {
    let schema = StructType::new_unchecked(vec![]);
    assert!(!schema_contains_file_actions(&schema));
}

#[test]
fn test_blind_append_sets_commit_info_flag() {
    let commit_info = CommitInfo::new(1, None, None, None, true);
    assert_eq!(commit_info.is_blind_append, Some(true));

    let commit_info_false = CommitInfo::new(1, None, None, None, false);
    assert_eq!(commit_info_false.is_blind_append, None);
}

#[test]
fn commit_infos_have_unique_transaction_ids() {
    let a = CommitInfo::new(5, Some(7), Some("WRITE".to_string()), Some("e".to_string()), false);
    let b = CommitInfo::new(5, Some(7), Some("WRITE".to_string()), Some("e".to_string()), false);
    assert_eq!(a.operation, Some("WRITE".to_string()));
    assert_eq!(a.engine_info, Some("e".to_string()));
    assert_eq!(a.in_commit_timestamp, Some(7));
    assert_eq!(a.txn_id.as_ref().unwrap().len(), 36);
    assert_ne!(a.txn_id, b.txn_id);
}

#[test]
fn projecting_a_missing_column_fails() {
    let err = get_commit_schema().project(&["nothing"]).unwrap_err();
    assert_eq!(err, Error::MissingColumn("nothing".to_string()));
    assert!(err.to_string().contains("nothing"));
}

#[test]
fn metadata_columns_are_refused() {
    let mut field = StructField::not_null("row", DataType::long());
    field.metadata.insert(
        "delta.metadataSpec".to_string(),
        delta_kernel::schema::MetadataValue::String("row_index".to_string()),
    );
    let schema = StructType::new_unchecked(vec![field]);
    let err = Metadata::try_new(None, None, &schema, vec![], 0, StringMap::new()).unwrap_err();
    assert_eq!(
        err,
        Error::Schema(
            "Table schema must not contain metadata columns. Found metadata column: 'row'"
                .to_string()
        )
    );
}

#[test]
fn protocol_is_read_from_its_first_row() {
    let none = || ProtocolRow {
        min_reader_version: None,
        min_writer_version: 0,
        reader_features: None,
        writer_features: None,
    };
    assert_eq!(Protocol::try_new_from_data(vec![none(), none()]), Ok(None));
    let row = ProtocolRow {
        min_reader_version: Some(3),
        min_writer_version: 7,
        reader_features: Some(vec!["deletionVectors".to_string()]),
        writer_features: Some(vec!["deletionVectors".to_string(), "appendOnly".to_string()]),
    };
    let p = Protocol::try_new_from_data(vec![none(), row]).unwrap().unwrap();
    assert_eq!(p.min_reader_version(), 3);
    assert_eq!(p.min_writer_version(), 7);
    assert_eq!(p.reader_features(), Some(&vec![TableFeature::DeletionVectors]));
    assert!(p.has_table_feature(&TableFeature::AppendOnly));
    assert!(!p.has_table_feature(&TableFeature::RowTracking));
}

#[test]
fn metadata_is_read_from_its_first_row() {
    let m = Metadata::with_id(
        "a".to_string(),
        Some("n".to_string()),
        Some("d".to_string()),
        &id_schema(),
        vec![],
        1,
        StringMap::new(),
    )
    .unwrap();
    assert_eq!(Metadata::try_new_from_data(vec![None, None]), Ok(None));
    let found = Metadata::try_new_from_data(vec![None, Some(m.clone())]).unwrap().unwrap();
    assert_eq!(found, m);
    assert_eq!(found.id(), "a");
    assert_eq!(found.name(), Some(&"n".to_string()));
    assert_eq!(found.description(), Some(&"d".to_string()));
    assert_eq!(found.created_time(), Some(1));
}

#[test]
fn sidecars_refer_to_files_below_the_log() {
    let sidecar = |path: &str, size: i64| Sidecar {
        path: path.to_string(),
        size_in_bytes: size,
        modification_time: 9,
        tags: None,
    };
    let file = sidecar("a.parquet", 10)
        .to_filemeta("memory:///table/_delta_log/")
        .unwrap();
    assert_eq!(file.location, "memory:///table/_delta_log/_sidecars/a.parquet");
    assert_eq!(file.size, 10);
    assert_eq!(file.last_modified, 9);

    let absolute = sidecar("s3://bucket/b.parquet", 1)
        .to_filemeta("memory:///table/_delta_log/")
        .unwrap();
    assert_eq!(absolute.location, "s3://bucket/b.parquet");

    let err = sidecar("a.parquet", -1)
        .to_filemeta("memory:///table/_delta_log/")
        .unwrap_err();
    assert_eq!(
        err,
        Error::Generic("Failed to convert sidecar size -1 to usize".to_string())
    );
    assert!(matches!(
        sidecar("a.parquet", 1).to_filemeta("no url"),
        Err(Error::InvalidUrl(_))
    ));

    let refs = vec![sidecar("a.parquet", 1), sidecar("b.parquet", 2)];
    let files = Sidecar::to_filemetas(&refs, "memory:///t/_delta_log/").unwrap();
    assert_eq!(files.len(), 2);
    assert!(files[0] < files[1]);
    assert!(!(files[1] < files[0]));
}
