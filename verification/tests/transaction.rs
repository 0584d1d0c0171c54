use delta_kernel::actions::{
    DeletionVectorDescriptor, DeletionVectorStorageType, Metadata, Protocol,
};
use delta_kernel::commit_plan::{
    assign_batch_row_ids, determine_commit_type, validate_commit_type, CommitAction, CommitInputs,
    CommitType,
};
use delta_kernel::commit_result::{CommitResponse, CommitResult};
use delta_kernel::crc::{FileSizeHistogram, FileStatsDelta};
use delta_kernel::create_table::LogListing;
use delta_kernel::create_table_builder::create_table;
use delta_kernel::dv_update::ScanBatch;
use delta_kernel::error::{DeltaResult, Error};
use delta_kernel::evaluation::{Expression, FieldEdit, RowExpression};
use delta_kernel::expressions::ColumnName;
use delta_kernel::file_sizes::StagedSizes;
use delta_kernel::file_stats::{ColumnStats, FileStats};
use delta_kernel::log_segment::LogSegment;
use delta_kernel::path::{FileMeta, ParsedLogPath};
use delta_kernel::row_tracking::assign_row_ids;
use delta_kernel::scalars::Scalar;
use delta_kernel::schema::{DataType, PrimitiveType, StructField, StructType};
use delta_kernel::snapshot::Snapshot;
use delta_kernel::string_map::StringMap;
use delta_kernel::table_configuration::TableConfiguration;
use delta_kernel::table_features::{ColumnMappingMode, TableFeature};
use delta_kernel::transaction::{
    CreateTable, ExistingTable, FilteredEngineData, Transaction, WriteContext, WritesData,
};
use delta_kernel::update_table::ScanMetadata;

type Txn = Transaction<ExistingTable, &'static str>;

const TABLE_ROOT: &str = "memory:///table/";

fn config(pairs: &[(&str, &str)]) -> StringMap<String> {
    let mut map = StringMap::new();
    for (k, v) in pairs {
        map.insert(k.to_string(), v.to_string());
    }
    map
}

fn commit_file(version: u64) -> FileMeta {
    FileMeta::new(format!("{TABLE_ROOT}_delta_log/{version:020}.json"), 1, 10)
}

fn snapshot_of(
    schema: StructType,
    partition_columns: &[&str],
    properties: &[(&str, &str)],
    protocol: Protocol,
) -> Snapshot {
    let columns = partition_columns.iter().map(|c| c.to_string()).collect();
    let metadata =
        Metadata::try_new(None, None, &schema, columns, 0, config(properties)).unwrap();
    let table_configuration =
        TableConfiguration::try_new(metadata, schema, protocol, TABLE_ROOT.to_string(), 0).unwrap();
    let commit = ParsedLogPath::parse_commit(commit_file(0)).unwrap();
    let log_segment =
        LogSegment::new_for_version_zero(format!("{TABLE_ROOT}_delta_log/"), commit).unwrap();
    Snapshot { log_segment, table_configuration, crc_delta: None, file_size_histogram: None }
}

fn value_schema() -> StructType {
    StructType::new_unchecked(vec![StructField::nullable("value", DataType::long())])
}

fn modern(reader: &[TableFeature], writer: &[TableFeature]) -> Protocol {
    Protocol::try_new_modern(reader.to_vec(), writer.to_vec()).unwrap()
}

fn transaction(snapshot: Snapshot) -> Txn {
    Transaction::try_new_existing_table(snapshot, false, None, 1000).unwrap()
}

fn writer_table(properties: &[(&str, &str)], writer: &[TableFeature]) -> Snapshot {
    snapshot_of(value_schema(), &[], properties, modern(&[], writer))
}

fn setup_dv_enabled_table() -> Snapshot {
    let dv = [TableFeature::DeletionVectors];
    snapshot_of(
        value_schema(),
        &[],
        &[("delta.enableDeletionVectors", "true")],
        modern(&dv, &dv),
    )
}

fn setup_non_dv_table() -> Snapshot {
    snapshot_of(value_schema(), &[], &[], Protocol::try_new_legacy(1, 2).unwrap())
}

fn create_existing_table_txn() -> Txn {
    transaction(setup_non_dv_table())
}

fn add_dummy_file<S: WritesData>(txn: &mut Transaction<S, &'static str>) {
    txn.add_files("dummy");
}

fn dummy_stats() -> Vec<FileStats> {
    vec![FileStats { path: "dummy".to_string(), num_records: None, columns: vec![] }]
}

fn inputs(file_stats: Vec<Vec<FileStats>>) -> CommitInputs {
    CommitInputs {
        previous_in_commit_timestamp: None,
        row_id_high_water_mark: None,
        existing_domains: StringMap::new(),
        file_stats,
    }
}

fn no_files() -> StagedSizes {
    StagedSizes { added: vec![], removed: vec![] }
}

fn create_test_dv_descriptor(path_suffix: &str) -> DeletionVectorDescriptor {
    DeletionVectorDescriptor {
        storage_type: DeletionVectorStorageType::PersistedRelative,
        path_or_inline_dv: format!("dv_{path_suffix}"),
        offset: Some(0),
        size_in_bytes: 100,
        cardinality: 1,
    }
}

fn create_dv_transaction(snapshot: Snapshot) -> Txn {
    transaction(snapshot)
        .with_operation("DELETE".to_string())
        .with_engine_info("test_engine")
}

fn partitioned_schema() -> StructType {
    StructType::new_unchecked(vec![
        StructField::nullable("letter", DataType::string()),
        StructField::nullable("number", DataType::long()),
        StructField::nullable("a_float", DataType::Primitive(PrimitiveType::Double)),
    ])
}

fn basic_partitioned() -> Snapshot {
    snapshot_of(
        partitioned_schema(),
        &["letter"],
        &[],
        Protocol::try_new_legacy(1, 2).unwrap(),
    )
}

fn partitioned_with_materialize_feature() -> Snapshot {
    snapshot_of(
        partitioned_schema(),
        &["letter"],
        &[],
        modern(&[], &[TableFeature::MaterializePartitionColumns]),
    )
}

fn snapshot_and_write_context(snapshot: Snapshot) -> (Snapshot, WriteContext) {
    let txn = transaction(snapshot.clone());
    (snapshot, txn.get_write_context())
}

#[test]
fn test_add_files_schema() {
    let txn = transaction(setup_dv_enabled_table()).with_engine_info("default engine");
    let empty = || DataType::struct_type_unchecked(vec![]);
    let expected = StructType::new_unchecked(vec![
        StructField::not_null("path", DataType::string()),
        StructField::not_null(
            "partitionValues",
            DataType::mapping(DataType::string(), DataType::string(), true),
        ),
        StructField::not_null("size", DataType::long()),
        StructField::not_null("modificationTime", DataType::long()),
        StructField::nullable(
            "stats",
            DataType::struct_type_unchecked(vec![
                StructField::nullable("numRecords", DataType::long()),
                StructField::nullable("nullCount", empty()),
                StructField::nullable("minValues", empty()),
                StructField::nullable("maxValues", empty()),
                StructField::nullable("tightBounds", DataType::boolean()),
            ]),
        ),
    ]);
    assert_eq!(txn.add_files_schema(), expected);
}

#[test]
fn test_new_deletion_vector_path() {
    let txn = transaction(setup_dv_enabled_table()).with_engine_info("default engine");
    let write_context = txn.get_write_context();

    let dv_path1 = write_context.new_deletion_vector_path(String::from(""));
    let abs_path1 = dv_path1.absolute_path().unwrap();
    assert!(abs_path1.contains(TABLE_ROOT));

    let prefix = String::from("dv_test");
    let dv_path2 = write_context.new_deletion_vector_path(prefix.clone());
    let abs_path2 = dv_path2.absolute_path().unwrap();
    assert!(abs_path2.contains(TABLE_ROOT));
    assert!(abs_path2.contains(&prefix));

    let dv_path3 = write_context.new_deletion_vector_path(prefix.clone());
    let abs_path3 = dv_path3.absolute_path().unwrap();
    assert_ne!(abs_path2, abs_path3);
}

#[test]
fn deletion_vector_paths_hold_the_identifier() {
    let write_context = transaction(setup_dv_enabled_table()).get_write_context();
    let path = write_context.new_deletion_vector_path("ab".to_string());
    let relative = path.relative_path();
    assert_eq!(relative, format!("ab/deletion_vector_{}.bin", path.uuid));
    assert_eq!(path.absolute_path().unwrap(), format!("{TABLE_ROOT}{relative}"));
    let path = write_context.new_deletion_vector_path(String::new());
    assert_eq!(path.relative_path(), format!("deletion_vector_{}.bin", path.uuid));
}

#[test]
fn test_physical_schema_excludes_partition_columns() {
    let txn = transaction(basic_partitioned()).with_engine_info("default engine");
    let write_context = txn.get_write_context();
    let logical_schema = write_context.logical_schema();
    let physical_schema = write_context.physical_schema();

    assert!(
        logical_schema.contains("letter"),
        "Logical schema should contain partition column 'letter'"
    );
    assert!(
        !physical_schema.contains("letter"),
        "Physical schema should not contain partition column 'letter' (stored in path)"
    );
    assert!(
        logical_schema.contains("number"),
        "Logical schema should contain data column 'number'"
    );
    assert!(
        physical_schema.contains("number"),
        "Physical schema should contain data column 'number'"
    );
}

#[test]
fn test_materialize_partition_columns_in_write_context() {
    let (snap_without, wc_without) = snapshot_and_write_context(basic_partitioned());
    let partition_cols = snap_without.table_configuration().partition_columns();
    assert_eq!(partition_cols.len(), 1);
    assert_eq!(partition_cols[0], "letter");
    assert!(
        !snap_without
            .table_configuration()
            .protocol()
            .has_table_feature(&TableFeature::MaterializePartitionColumns),
        "basic_partitioned should not have materializePartitionColumns feature"
    );
    let edits = wc_without.logical_to_physical();
    assert_eq!(
        edits,
        &vec![FieldEdit::DropIfExists { field: "letter".to_string() }],
        "Partition column 'letter' should be dropped. Edits: {edits:?}"
    );

    let (snap_with, wc_with) =
        snapshot_and_write_context(partitioned_with_materialize_feature());
    let partition_cols = snap_with.table_configuration().partition_columns();
    assert_eq!(partition_cols.len(), 1);
    assert_eq!(partition_cols[0], "letter");
    assert!(
        snap_with
            .table_configuration()
            .protocol()
            .has_table_feature(&TableFeature::MaterializePartitionColumns),
        "partitioned_with_materialize_feature should have materializePartitionColumns feature"
    );
    let edits = wc_with.logical_to_physical();
    assert!(
        edits.is_empty(),
        "No columns should be dropped with materializePartitionColumns. Edits: {edits:?}"
    );
}

#[test]
fn test_physical_schema_includes_partition_columns_when_materialized() {
    let txn = transaction(partitioned_with_materialize_feature());
    let write_context = txn.get_write_context();
    let physical_schema = write_context.physical_schema();
    assert!(
        physical_schema.contains("letter"),
        "Partition column 'letter' should be in physical schema when materialized"
    );
    assert!(
        physical_schema.contains("number"),
        "Non-partition column 'number' should be in physical schema"
    );
}

#[test]
fn test_update_deletion_vectors_unsupported_table() {
    let mut txn = create_dv_transaction(setup_non_dv_table());
    let result = txn.update_deletion_vectors(StringMap::new(), vec![]);
    let err = result.expect_err("Should fail on table without DV support");
    let err_msg = err.to_string();
    assert!(
        err_msg.contains("Deletion vector")
            && (err_msg.contains("require") || err_msg.contains("version")),
        "Expected protocol error about DV requirements, got: {err_msg}"
    );
}

#[test]
fn test_update_deletion_vectors_mismatch_count() {
    let mut txn = create_dv_transaction(setup_dv_enabled_table());
    let mut dv_map = StringMap::new();
    let descriptor = create_test_dv_descriptor("non_existent");
    dv_map.insert("non_existent_file.parquet".to_string(), descriptor);

    let result = txn.update_deletion_vectors(dv_map, vec![]);

    assert!(result.is_err(), "Should fail when DV descriptors don't match scan files");
    let err_msg = result.unwrap_err().to_string();
    assert!(
        err_msg.contains("matched") && err_msg.contains("does not match"),
        "Expected error about mismatched count (expected 1 descriptor, 0 matched files), got: {err_msg}"
    );
}

#[test]
fn test_update_deletion_vectors_empty_inputs() {
    let mut txn = create_dv_transaction(setup_dv_enabled_table());
    let result = txn.update_deletion_vectors(StringMap::new(), vec![]);
    assert!(
        result.is_ok(),
        "Empty DV updates should succeed as no-op, got error: {result:?}"
    );
}

fn scan_batch(data: &'static str, rows: &[(&str, bool)]) -> ScanBatch<&'static str> {
    ScanBatch {
        data,
        paths: rows.iter().map(|(p, _)| Some(p.to_string())).collect(),
        selection_vector: rows.iter().map(|(_, s)| *s).collect(),
    }
}

#[test]
fn selected_files_get_their_new_deletion_vectors() {
    let mut txn = create_dv_transaction(setup_dv_enabled_table());
    let mut dv_map = StringMap::new();
    dv_map.insert("a".to_string(), create_test_dv_descriptor("a"));
    dv_map.insert("c".to_string(), create_test_dv_descriptor("c"));
    let batches = vec![
        Ok(scan_batch("first", &[("a", true), ("b", true), ("c", false)])),
        Ok(scan_batch("second", &[("c", true)])),
    ];
    txn.update_deletion_vectors(dv_map, batches).unwrap();

    assert_eq!(txn.dv_matched_files.len(), 2);
    let first = &txn.dv_matched_files[0];
    assert_eq!(first.data, "first");
    assert_eq!(first.selection_vector, vec![true, false, false]);
    assert_eq!(first.new_dv_entries.len(), 3);
    assert_eq!(first.new_dv_entries[0], create_test_dv_descriptor("a").to_scalar());
    assert!(matches!(first.new_dv_entries[1], Scalar::Null(_)));
    assert!(matches!(first.new_dv_entries[2], Scalar::Null(_)));
    let second = &txn.dv_matched_files[1];
    assert_eq!(second.selection_vector, vec![true]);

    let plan = txn.prepare_commit(&inputs(vec![])).unwrap();
    assert_eq!(plan.actions.len(), 5);
    assert!(matches!(plan.actions[1], CommitAction::RemoveUpdated { batch: 0 }));
    assert!(matches!(plan.actions[2], CommitAction::RemoveUpdated { batch: 1 }));
    assert!(matches!(plan.actions[3], CommitAction::AddUpdated { batch: 0 }));
    assert!(matches!(plan.actions[4], CommitAction::AddUpdated { batch: 1 }));
}

#[test]
fn rows_after_the_selection_are_matched_too() {
    let mut txn = create_dv_transaction(setup_dv_enabled_table());
    let mut dv_map = StringMap::new();
    dv_map.insert("b".to_string(), create_test_dv_descriptor("b"));
    let mut batch = scan_batch("rows", &[("a", true), ("b", true), ("c", true)]);
    batch.selection_vector = vec![true];
    txn.update_deletion_vectors(dv_map, vec![Ok(batch)]).unwrap();
    assert_eq!(txn.dv_matched_files[0].selection_vector, vec![false, true, false]);
}

#[test]
fn every_new_deletion_vector_needs_a_file() {
    let dv_map = |paths: &[&str]| {
        let mut map = StringMap::new();
        for path in paths {
            map.insert(path.to_string(), create_test_dv_descriptor(path));
        }
        map
    };
    let batches = || {
        vec![
            Ok(scan_batch("first", &[("a", true)])),
            Ok(scan_batch("second", &[("a", true)])),
        ]
    };
    let mut txn = create_dv_transaction(setup_dv_enabled_table());
    assert_eq!(
        txn.update_deletion_vectors(dv_map(&["a", "b"]), batches()),
        Err(Error::generic("No file matches the new DV descriptor for path: b"))
    );
    let mut txn = create_dv_transaction(setup_dv_enabled_table());
    assert_eq!(
        txn.update_deletion_vectors(dv_map(&["a"]), batches()),
        Err(Error::generic(
            "Number of matched DV files does not match number of new DV descriptors: 2 != 1"
        ))
    );
}

#[test]
fn failing_scans_stop_deletion_vector_updates() {
    let mut txn = create_dv_transaction(setup_dv_enabled_table());
    let mut dv_map = StringMap::new();
    dv_map.insert("a".to_string(), create_test_dv_descriptor("a"));
    let batches = vec![
        Err(Error::generic("broken scan")),
        Ok(scan_batch("first", &[("a", true)])),
    ];
    assert_eq!(
        txn.update_deletion_vectors(dv_map, batches),
        Err(Error::generic("broken scan"))
    );
}

#[test]
fn test_validate_blind_append_success() -> Result<(), Error> {
    let mut txn = create_existing_table_txn().with_blind_append();
    add_dummy_file(&mut txn);
    txn.validate_blind_append_semantics()?;
    Ok(())
}

#[test]
fn test_validate_blind_append_requires_adds() {
    let txn = create_existing_table_txn().with_blind_append();
    let result = txn.validate_blind_append_semantics();
    assert!(matches!(result, Err(Error::InvalidTransactionState(_))));
}

#[test]
fn test_validate_blind_append_requires_data_change() {
    let mut txn = create_existing_table_txn().with_blind_append();
    txn.set_data_change(false);
    add_dummy_file(&mut txn);
    let result = txn.validate_blind_append_semantics();
    assert!(matches!(result, Err(Error::InvalidTransactionState(_))));
}

#[test]
fn test_validate_blind_append_rejects_removes() {
    let mut txn = create_existing_table_txn().with_blind_append();
    add_dummy_file(&mut txn);
    txn.remove_files(FilteredEngineData::with_all_rows_selected("remove"));
    let result = txn.validate_blind_append_semantics();
    assert!(matches!(result, Err(Error::InvalidTransactionState(_))));
}

#[test]
fn test_validate_blind_append_rejects_dv_updates() {
    let mut txn = transaction(setup_dv_enabled_table()).with_blind_append();
    add_dummy_file(&mut txn);
    let mut dv_map = StringMap::new();
    dv_map.insert("dv".to_string(), create_test_dv_descriptor("dv"));
    txn.update_deletion_vectors(dv_map, vec![Ok(scan_batch("dv", &[("dv", true)]))]).unwrap();
    let result = txn.validate_blind_append_semantics();
    assert!(matches!(result, Err(Error::InvalidTransactionState(_))));
}

fn create_table_txn(
    root: &str,
    is_catalog_committer: bool,
) -> DeltaResult<Transaction<CreateTable, &'static str>> {
    let schema =
        StructType::new_unchecked(vec![StructField::new("id", DataType::integer(), false)]);
    create_table(root, schema, "test_engine").build(
        root.to_string(),
        &LogListing::Empty,
        is_catalog_committer,
        0,
        1000,
    )
}

#[test]
fn test_validate_blind_append_rejects_create_table() {
    let mut txn = create_table_txn("memory:///new/", false).unwrap();
    txn.is_blind_append = true;
    add_dummy_file(&mut txn);
    let result = txn.validate_blind_append_semantics();
    assert!(matches!(result, Err(Error::InvalidTransactionState(_))));
}

#[test]
fn test_blind_append_commit_rejects_no_adds() {
    let txn = create_existing_table_txn().with_blind_append();
    let err = txn
        .prepare_commit(&inputs(vec![]))
        .expect_err("Blind append with no adds should fail");
    assert!(
        err.to_string().contains("Blind append requires at least one added data file"),
        "Unexpected error: {err:?}"
    );
    assert_eq!(txn.validate_commit(&vec![]), Err(err));
}

#[test]
fn test_blind_append_commit_success() {
    let mut txn = create_existing_table_txn().with_blind_append();
    add_dummy_file(&mut txn);
    let result = txn.prepare_commit(&inputs(vec![dummy_stats()]));
    if let Err(e) = &result {
        assert!(
            !matches!(e, Error::InvalidTransactionState(_)),
            "Blind append validation should have passed, got: {e:?}"
        );
    }
    let plan = result.unwrap();
    assert!(matches!(&plan.actions[0], CommitAction::CommitInfo(info)
        if info.is_blind_append == Some(true)));
    assert!(matches!(plan.actions[1], CommitAction::Add { batch: 0, row_tracking: None }));
    assert_eq!(plan.actions.len(), 2);
}

#[test]
fn test_commit_io_error_returns_retryable_transaction() {
    let mut txn = create_existing_table_txn();
    add_dummy_file(&mut txn);
    let plan = txn.prepare_commit(&inputs(vec![dummy_stats()])).unwrap();
    let response = Err(Error::IOError("simulated IO error".to_string()));
    let result = txn.commit(plan, response, &no_files()).unwrap();
    assert!(!result.is_committed());
    assert!(
        matches!(result, CommitResult::RetryableTransaction(_)),
        "Expected RetryableTransaction, got: {result:?}"
    );
    if let CommitResult::RetryableTransaction(retryable) = result {
        assert!(
            retryable.error.to_string().contains("simulated IO error"),
            "Unexpected error: {:?}",
            retryable.error
        );
        assert_eq!(retryable.transaction.add_files_metadata, vec!["dummy"]);
        assert!(retryable.transaction.prepare_commit(&inputs(vec![dummy_stats()])).is_ok());
    }
}

#[test]
fn other_errors_of_the_committer_are_passed_on() {
    let txn = create_existing_table_txn();
    let plan = txn.prepare_commit(&inputs(vec![])).unwrap();
    let result = txn.commit(plan, Err(Error::generic("broken")), &no_files());
    assert!(matches!(result, Err(Error::Generic(m)) if m == "broken"));
}

#[test]
fn test_existing_table_txn_debug() {
    let txn = create_existing_table_txn();
    let debug_str = txn.debug_text();
    assert!(
        debug_str.contains("Transaction") && debug_str.contains("read_snapshot version"),
        "Debug output should contain Transaction info: {debug_str}"
    );
    assert!(
        !debug_str.contains("create_table"),
        "Existing table debug should not contain create_table: {debug_str}"
    );
    let create = create_table_txn("memory:///new/", false).unwrap().debug_text();
    assert!(create.contains("create_table"), "{create}");
}

fn nested_schema() -> StructType {
    StructType::new_unchecked(vec![
        StructField::nullable("id", DataType::long()),
        StructField::nullable(
            "info",
            DataType::struct_type_unchecked(vec![
                StructField::nullable("name", DataType::string()),
                StructField::nullable("age", DataType::integer()),
                StructField::nullable(
                    "tags",
                    DataType::mapping(DataType::string(), DataType::string(), true),
                ),
                StructField::nullable("scores", DataType::array(DataType::integer(), true)),
            ]),
        ),
    ])
}

fn check_physical(logical: &StructType, physical: &StructType, mode: ColumnMappingMode) {
    assert_eq!(logical.num_fields(), physical.num_fields());
    for (l, p) in logical.fields().iter().zip(physical.fields()) {
        assert_eq!(p.name(), l.physical_name(mode));
        match mode {
            ColumnMappingMode::NoMapping => assert_eq!(p.name(), l.name()),
            _ => assert!(p.name().starts_with("col-")),
        }
        if let (DataType::Struct(l), DataType::Struct(p)) = (l.data_type(), p.data_type()) {
            check_physical(l, p, mode);
        }
    }
}

#[test]
fn test_physical_schema_column_mapping() {
    let modes = [
        ("none", ColumnMappingMode::NoMapping),
        ("name", ColumnMappingMode::Name),
        ("id", ColumnMappingMode::Id),
    ];
    for (name, mode) in modes {
        let txn: Transaction<CreateTable, &'static str> =
            create_table("memory:///new/", nested_schema(), "test_engine")
                .with_table_properties([("delta.columnMapping.mode", name)])
                .build("memory:///new/".to_string(), &LogListing::Empty, false, 0, 1000)
                .unwrap();
        let write_context = txn.get_write_context();
        check_physical(write_context.logical_schema(), write_context.physical_schema(), mode);
        if mode != ColumnMappingMode::NoMapping {
            assert_ne!(
                write_context.logical_schema(),
                write_context.physical_schema(),
                "Physical schema should differ from logical schema when column mapping is enabled"
            );
        }
        assert_eq!(write_context.target_dir(), "memory:///new/");
    }
}

enum TestFileStats {
    Missing,
    Present,
    AllNull,
}

fn create_test_add_files(path: &str, stats: TestFileStats) -> Vec<Vec<FileStats>> {
    let (num_records, columns) = match stats {
        TestFileStats::Missing => (None, vec![]),
        TestFileStats::Present => (
            Some(100),
            vec![ColumnStats { null_count: Some(0), has_min: true, has_max: true }],
        ),
        TestFileStats::AllNull => (
            Some(100),
            vec![ColumnStats { null_count: Some(100), has_min: false, has_max: false }],
        ),
    };
    vec![vec![FileStats { path: path.to_string(), num_records, columns }]]
}

fn clustered_txn() -> Txn {
    let mut txn = transaction(setup_non_dv_table()).with_operation("WRITE".to_string());
    txn.physical_clustering_columns = Some(vec![ColumnName::new(["value"])]);
    txn
}

#[test]
fn test_stats_validation_allows_all_null_clustering_column() {
    let add_files = create_test_add_files("file1.parquet", TestFileStats::AllNull);
    let result = clustered_txn().validate_add_files_stats(&add_files);
    assert!(
        result.is_ok(),
        "Stats validation should pass for all-null clustering columns, got: {result:?}",
    );
}

#[test]
fn test_stats_validation_when_clustering_cols_missing_stats() {
    let add_files = create_test_add_files("file1.parquet", TestFileStats::Missing);
    let result = clustered_txn().validate_add_files_stats(&add_files);
    assert!(
        result.is_err(),
        "Expected validation to fail when stats are missing for clustering columns"
    );
    let err_msg = result.unwrap_err().to_string();
    assert!(
        err_msg.contains("Stats validation error") || err_msg.contains("no stats"),
        "Expected stats validation error, got: {err_msg}"
    );
}

#[test]
fn test_stats_validation_when_clustering_stats_present() {
    let add_files = create_test_add_files("file1.parquet", TestFileStats::Present);
    let result = clustered_txn().validate_add_files_stats(&add_files);
    assert!(
        result.is_ok(),
        "Stats validation should pass when stats are present, got: {result:?}"
    );
}

#[test]
fn test_stats_validation_skipped_without_clustering() {
    let txn = transaction(setup_non_dv_table()).with_operation("WRITE".to_string());
    let add_files = create_test_add_files("file1.parquet", TestFileStats::Missing);
    let result = txn.validate_add_files_stats(&add_files);
    assert!(
        result.is_ok(),
        "Stats validation should be skipped without clustering, got: {result:?}"
    );
}

#[test]
fn a_minimum_alone_is_not_enough() {
    let mut add_files = create_test_add_files("file1.parquet", TestFileStats::Present);
    add_files[0][0].columns[0].has_max = false;
    let err = clustered_txn().validate_add_files_stats(&add_files).unwrap_err();
    assert!(matches!(&err, Error::StatsValidation(m) if m.contains("file1.parquet")), "{err:?}");
    assert_eq!(clustered_txn().stats_columns(), vec![ColumnName::new(["value"])]);
    assert!(clustered_txn().stats_schema().contains("minValues"));
}

#[test]
fn disallow_catalog_committer_for_non_catalog_managed_table() {
    let snapshot = writer_table(
        &[("delta.enableInCommitTimestamps", "true")],
        &[TableFeature::InCommitTimestamp],
    );
    let txn: Txn = Transaction::try_new_existing_table(snapshot, true, None, 1000).unwrap();
    let mut read = inputs(vec![]);
    read.previous_in_commit_timestamp = Some(12345678900);
    let err = txn.prepare_commit(&read).unwrap_err();
    assert!(matches!(
        err,
        Error::Generic(e) if e.contains("This table is path-based and cannot be committed to with a catalog committer")
    ));
}

#[test]
fn disallow_catalog_committer_for_non_catalog_managed_create_table() {
    let err = create_table_txn("memory:///", true)
        .unwrap()
        .prepare_commit(&inputs(vec![]))
        .unwrap_err();
    assert!(matches!(
        err,
        Error::Generic(e) if e.contains("This table is path-based and cannot be committed to with a catalog committer")
    ));
}

#[test]
fn catalogs_commit_what_they_manage() {
    let snapshot = writer_table(&[], &[]);
    let path_based = snapshot.table_configuration();
    assert_eq!(determine_commit_type(true, path_based), CommitType::PathBasedCreate);
    assert_eq!(determine_commit_type(false, path_based), CommitType::PathBasedWrite);
    let features = [TableFeature::CatalogManaged];
    let all = [TableFeature::CatalogManaged, TableFeature::InCommitTimestamp];
    let managed = snapshot_of(
        value_schema(),
        &[],
        &[("delta.enableInCommitTimestamps", "true")],
        modern(&features, &all),
    );
    let config = managed.table_configuration();
    assert_eq!(determine_commit_type(true, config), CommitType::CatalogManagedCreate);
    assert_eq!(determine_commit_type(false, config), CommitType::CatalogManagedWrite);
    assert!(validate_commit_type(true, CommitType::CatalogManagedWrite).is_ok());
    assert!(validate_commit_type(false, CommitType::PathBasedWrite).is_ok());
    let err = validate_commit_type(false, CommitType::CatalogManagedWrite).unwrap_err();
    assert!(err.to_string().contains("requires a catalog committer"));
    let txn: Txn = Transaction::try_new_existing_table(managed, false, None, 1000).unwrap();
    assert_eq!(txn.prepare_commit(&inputs(vec![])).unwrap_err(), err);
}

#[test]
fn test_commit_metadata_receives_ict_not_wall_time() {
    let future_ict: i64 = 9_999_999_999_999;
    let schema =
        StructType::new_unchecked(vec![StructField::nullable("id", DataType::integer())]);
    let snapshot = snapshot_of(
        schema,
        &[],
        &[("delta.enableInCommitTimestamps", "true")],
        modern(&[], &[TableFeature::InCommitTimestamp]),
    );
    let mut txn = transaction(snapshot);
    add_dummy_file(&mut txn);
    assert!(txn.commit_reads().in_commit_timestamp);
    let mut read = inputs(vec![dummy_stats()]);
    read.previous_in_commit_timestamp = Some(future_ict);
    let plan = txn.prepare_commit(&read).unwrap();
    let captured = plan.commit_metadata.in_commit_timestamp;
    let version = plan.commit_metadata.version;
    let result = txn
        .commit(plan, Ok(CommitResponse::Conflict { version }), &no_files())
        .unwrap();
    assert!(
        matches!(&result, CommitResult::ConflictedTransaction(c) if c.conflict_version() == 1),
        "Expected ConflictedTransaction from capturing committer"
    );
    assert_eq!(
        captured,
        future_ict + 1,
        "CommitMetadata.in_commit_timestamp should be the computed ICT (prev_ict + 1), \
         not the wall-clock time"
    );
}

#[test]
fn the_wall_time_wins_where_it_is_later() {
    let snapshot = writer_table(
        &[("delta.enableInCommitTimestamps", "true")],
        &[TableFeature::InCommitTimestamp],
    );
    let txn = transaction(snapshot);
    assert_eq!(txn.get_in_commit_timestamp(Some(10)), Some(1000));
    assert_eq!(txn.get_in_commit_timestamp(Some(999)), Some(1000));
    assert_eq!(txn.get_in_commit_timestamp(Some(1000)), Some(1001));
    assert_eq!(create_existing_table_txn().get_in_commit_timestamp(None), None);
    let plan = create_existing_table_txn().prepare_commit(&inputs(vec![])).unwrap();
    assert_eq!(plan.in_commit_timestamp, None);
    assert_eq!(plan.commit_metadata.in_commit_timestamp, 1000);
}

#[test]
fn committed_transactions_give_the_next_snapshot() {
    let txn = create_existing_table_txn();
    let plan = txn.prepare_commit(&inputs(vec![])).unwrap();
    assert_eq!(plan.commit_metadata.version, 1);
    assert_eq!(plan.commit_metadata.max_published_version, Some(0));
    let response = Ok(CommitResponse::Committed { file_meta: commit_file(1) });
    let committed = txn.commit(plan, response, &no_files()).unwrap().unwrap_committed();
    assert_eq!(committed.commit_version(), 1);
    assert_eq!(committed.post_commit_stats().commits_since_checkpoint, 1);
    assert_eq!(committed.post_commit_stats().commits_since_log_compaction, 1);
    let after = committed.post_commit_snapshot().unwrap();
    assert_eq!(after.version(), 1);
    assert_eq!(after.log_segment().end_version, 1);
    assert_eq!(after.log_segment().listed.ascending_commit_files.len(), 2);
    let segment = after.log_segment();
    assert_eq!(segment.commits_since_checkpoint(), 1);
    assert_eq!(segment.commits_since_log_compaction_or_checkpoint(), 1);
}

#[test]
fn a_commit_must_be_the_one_that_was_planned() {
    let txn = create_existing_table_txn();
    let plan = txn.prepare_commit(&inputs(vec![])).unwrap();
    let response = Ok(CommitResponse::Committed { file_meta: commit_file(5) });
    assert!(txn.commit(plan, response, &no_files()).is_err());
    let txn = create_existing_table_txn();
    let plan = txn.prepare_commit(&inputs(vec![])).unwrap();
    let file_meta = FileMeta::new(format!("{TABLE_ROOT}_delta_log/other.txt"), 1, 1);
    let response = Ok(CommitResponse::Committed { file_meta });
    assert!(txn.commit(plan, response, &no_files()).is_err());
}

#[test]
fn created_tables_start_at_version_zero() {
    let txn = create_table_txn(TABLE_ROOT, false).unwrap();
    let plan = txn.prepare_commit(&inputs(vec![])).unwrap();
    let response = Ok(CommitResponse::Committed { file_meta: commit_file(0) });
    let committed = txn.commit(plan, response, &no_files()).unwrap().unwrap_committed();
    assert_eq!(committed.commit_version(), 0);
    assert_eq!(committed.post_commit_stats().commits_since_checkpoint, 0);
    assert_eq!(committed.post_commit_stats().commits_since_log_compaction, 0);
    assert_eq!(committed.post_commit_snapshot().unwrap().version(), 0);
}

#[test]
fn snapshots_carry_what_their_commit_changes() {
    assert!(setup_non_dv_table().crc_delta().is_none());
    let mut snapshot = writer_table(
        &[("delta.enableInCommitTimestamps", "true")],
        &[TableFeature::InCommitTimestamp, TableFeature::DomainMetadata],
    );
    snapshot.file_size_histogram = Some(FileSizeHistogram {
        sorted_bin_boundaries: vec![0, 10, 100],
        file_counts: vec![1, 1, 1],
        total_bytes: vec![5, 50, 500],
    });
    let mut txn = transaction(snapshot)
        .with_operation("WRITE".to_string())
        .with_transaction_id("app".to_string(), 3)
        .with_domain_metadata("mine".to_string(), "new".to_string());
    txn.add_files("first");
    txn.add_files("second");
    txn.remove_files(FilteredEngineData {
        data: "gone",
        selection_vector: vec![false, true],
    });
    assert!(txn.can_count_next_version());
    let mut inputs = inputs(vec![vec![], vec![]]);
    inputs.previous_in_commit_timestamp = Some(5000);
    let plan = txn.prepare_commit(&inputs).unwrap();
    let sizes = StagedSizes { added: vec![vec![10, 99], vec![400]], removed: vec![vec![7, 8, 100]] };
    let response = Ok(CommitResponse::Committed { file_meta: commit_file(1) });
    let committed = txn.commit(plan, response, &sizes).unwrap().unwrap_committed();
    let after = committed.post_commit_snapshot().unwrap();
    assert_eq!(after.bin_boundaries(), None);
    let delta = after.crc_delta().unwrap();
    assert_eq!(
        delta.file_stats,
        FileStatsDelta {
            net_files: 1,
            net_bytes: 401,
            net_histogram: Some(FileSizeHistogram {
                sorted_bin_boundaries: vec![0, 10, 100],
                file_counts: vec![-1, 2, 0],
                total_bytes: vec![-8, 109, 300],
            }),
        }
    );
    assert_eq!(delta.in_commit_timestamp, Some(5001));
    assert_eq!(delta.operation, Some("WRITE".to_string()));
    assert_eq!(delta.protocol, None);
    assert_eq!(delta.metadata, None);
    assert_eq!(delta.set_transaction_changes.len(), 1);
    assert_eq!(delta.set_transaction_changes[0].app_id, "app");
    assert_eq!(delta.domain_metadata_changes.len(), 1);
    assert_eq!(delta.domain_metadata_changes[0].domain(), "mine");
    assert!(!delta.has_missing_file_size);
    assert_eq!(&delta.clone(), delta);

    let txn = create_table_txn(TABLE_ROOT, false).unwrap();
    let plan = txn.prepare_commit(&self::inputs(vec![])).unwrap();
    let response = Ok(CommitResponse::Committed { file_meta: commit_file(0) });
    let committed = txn.commit(plan, response, &no_files()).unwrap().unwrap_committed();
    let after = committed.post_commit_snapshot().unwrap();
    let delta = after.crc_delta().unwrap();
    assert_eq!(delta.protocol.as_ref(), Some(after.table_configuration().protocol()));
    assert!(delta.metadata.is_some());
}

#[test]
fn commits_need_the_sizes_of_their_files() {
    let commit = |histogram: Option<Vec<i64>>, sizes: StagedSizes| {
        let mut snapshot = setup_non_dv_table();
        snapshot.file_size_histogram = histogram.map(|bins| FileSizeHistogram {
            file_counts: bins.iter().map(|_| 0).collect(),
            total_bytes: bins.iter().map(|_| 0).collect(),
            sorted_bin_boundaries: bins,
        });
        let mut txn = transaction(snapshot);
        add_dummy_file(&mut txn);
        let plan = txn.prepare_commit(&inputs(vec![dummy_stats()])).unwrap();
        let response = Ok(CommitResponse::Committed { file_meta: commit_file(1) });
        txn.commit(plan, response, &sizes).map(|r| r.is_committed())
    };
    let added = |sizes: &[i64]| StagedSizes { added: vec![sizes.to_vec()], removed: vec![] };
    assert_eq!(commit(None, added(&[1])).unwrap(), true);
    assert_eq!(
        commit(None, no_files()).unwrap_err(),
        Error::internal_error("The sizes of the files of every staged batch are needed")
    );
    assert_eq!(
        commit(None, added(&[i64::MAX, 1])).unwrap_err(),
        Error::generic("The sizes of the files of the commit do not fit")
    );
    assert_eq!(
        commit(Some(vec![0]), added(&[-1])).unwrap_err(),
        Error::generic("The size of a file is negative")
    );
    for bins in [vec![], vec![1, 2], vec![0, 2, 2]] {
        assert_eq!(
            commit(Some(bins), added(&[1])).unwrap_err(),
            Error::generic("The bins of the file size histogram do not ascend from 0")
        );
    }
}

#[test]
fn bins_account_for_every_file() {
    let bins = vec![0, 8, 64];
    let added = vec![0, 7, 8, 63, 64, 1000];
    let delta = FileStatsDelta::try_compute(&added, &vec![3], Some(&bins)).unwrap();
    let histogram = delta.net_histogram.as_ref().unwrap();
    assert_eq!(histogram.file_counts, vec![1, 2, 2]);
    assert_eq!(histogram.total_bytes, vec![4, 71, 1064]);
    assert_eq!(histogram.file_counts.iter().sum::<i64>(), delta.net_files);
    assert_eq!(histogram.total_bytes.iter().sum::<i64>(), delta.net_bytes);
    assert_eq!(
        FileStatsDelta::try_compute(&vec![-5], &vec![5], None),
        Ok(FileStatsDelta { net_files: 0, net_bytes: -10, net_histogram: None })
    );
}

#[test]
fn operations_are_validated_before_statistics() {
    let txn = create_existing_table_txn()
        .with_transaction_id("app".to_string(), 3)
        .with_transaction_id("app".to_string(), 4);
    assert_eq!(
        txn.validate_operations(),
        Err(Error::generic("app_id app already exists in transaction"))
    );
    assert_eq!(clustered_txn().validate_operations(), Ok(()));
}

#[test]
fn write_contexts_leave_out_partition_columns_of_statistics() {
    let txn = transaction(basic_partitioned());
    let expected = vec![ColumnName::new(["number"]), ColumnName::new(["a_float"])];
    assert_eq!(txn.stats_columns(), expected);
    assert_eq!(txn.get_write_context().stats_columns, expected);
    let txn = transaction(partitioned_with_materialize_feature());
    assert_eq!(txn.stats_columns(), expected);
}

#[test]
fn applications_come_once() {
    let txn = create_existing_table_txn()
        .with_transaction_id("app".to_string(), 3)
        .with_transaction_id("other".to_string(), 1);
    let plan = txn.prepare_commit(&inputs(vec![])).unwrap();
    assert!(matches!(&plan.actions[1], CommitAction::SetTransaction(t)
        if t.app_id == "app" && t.version == 3 && t.last_updated == Some(1000)));
    assert!(matches!(&plan.actions[2], CommitAction::SetTransaction(t) if t.app_id == "other"));

    let txn = create_existing_table_txn()
        .with_transaction_id("app".to_string(), 3)
        .with_transaction_id("app".to_string(), 4);
    assert_eq!(
        txn.prepare_commit(&inputs(vec![])).unwrap_err(),
        Error::generic("app_id app already exists in transaction")
    );
}

#[test]
fn domain_metadata_can_be_set_and_removed() {
    let snapshot = writer_table(&[], &[TableFeature::DomainMetadata]);
    let txn = transaction(snapshot)
        .with_domain_metadata("mine".to_string(), "new".to_string())
        .with_domain_metadata_removed("old".to_string())
        .with_domain_metadata_removed("missing".to_string());
    assert!(txn.commit_reads().domains);
    let mut read = inputs(vec![]);
    read.existing_domains = config(&[("old", "before"), ("kept", "k")]);
    let plan = txn.prepare_commit(&read).unwrap();
    assert_eq!(plan.actions.len(), 3);
    assert!(matches!(&plan.actions[1], CommitAction::DomainMetadata(d)
        if d.domain() == "mine" && d.configuration() == "new" && !d.is_removed()));
    assert!(matches!(&plan.actions[2], CommitAction::DomainMetadata(d)
        if d.domain() == "old" && d.configuration() == "before" && d.is_removed()));
    assert_eq!(plan.commit_metadata.domain_metadata_changes.len(), 2);
}

#[test]
fn bad_domain_operations_are_refused() {
    let supported = || transaction(writer_table(&[], &[TableFeature::DomainMetadata]));
    let err = supported()
        .with_domain_metadata("delta.mine".to_string(), "c".to_string())
        .prepare_commit(&inputs(vec![]))
        .unwrap_err();
    assert!(err.to_string().contains("system controlled"));
    let err = supported()
        .with_domain_metadata("mine".to_string(), "c".to_string())
        .with_domain_metadata_removed("mine".to_string())
        .prepare_commit(&inputs(vec![]))
        .unwrap_err();
    assert!(err
        .to_string()
        .contains("Metadata for domain mine already specified in this transaction"));
    let err = create_existing_table_txn()
        .with_domain_metadata("mine".to_string(), "c".to_string())
        .prepare_commit(&inputs(vec![]))
        .unwrap_err();
    assert!(matches!(&err, Error::Unsupported(m) if m.contains("domainMetadata")));
}

#[test]
fn removed_files_become_remove_actions() {
    let mut txn = create_existing_table_txn().with_data_change(false);
    txn.remove_files(FilteredEngineData::with_all_rows_selected("gone"));
    let plan = txn.prepare_commit(&inputs(vec![])).unwrap();
    assert_eq!(plan.actions.len(), 2);
    assert!(matches!(plan.actions[1], CommitAction::Remove { batch: 0 }));
    let (RowExpression::NestedIn(_, _) | RowExpression::Nested(_)) = &plan.remove.expression else {
        panic!("Expected a nested struct: {:?}", plan.remove.expression);
    };
    assert!(plan.remove.output_schema.contains("remove"));
    assert_eq!(plan.add_updated.len(), 3);
}

#[test]
fn added_files_become_add_actions() {
    let mut txn = create_existing_table_txn();
    add_dummy_file(&mut txn);
    let plan = txn.prepare_commit(&inputs(vec![dummy_stats()])).unwrap();
    assert!(plan.add.output_schema.contains("add"));
    let RowExpression::Nested(edits) = &plan.add.expression else {
        panic!("Expected a nested struct: {:?}", plan.add.expression);
    };
    assert!(edits.iter().any(|e| matches!(e, FieldEdit::InsertAfter { field, value }
        if field == "modificationTime"
            && *value == Expression::Literal(Scalar::Boolean(true)))));
    assert!(edits.iter().any(|e| matches!(e, FieldEdit::Replace { field, value }
        if field == "stats" && *value == Expression::ToJson(ColumnName::new(["stats"])))));
}

fn counted(records: &[Option<i64>]) -> Vec<FileStats> {
    records
        .iter()
        .map(|n| FileStats { path: "f".to_string(), num_records: *n, columns: vec![] })
        .collect()
}

#[test]
fn row_identifiers_follow_the_high_water_mark() {
    let snapshot = writer_table(
        &[("delta.enableRowTracking", "true")],
        &[TableFeature::RowTracking, TableFeature::DomainMetadata],
    );
    let mut txn = transaction(snapshot);
    txn.add_files("one");
    txn.add_files("two");
    assert!(txn.commit_reads().high_water_mark);
    let mut read = inputs(vec![counted(&[Some(5), Some(2)]), counted(&[Some(1)])]);
    read.row_id_high_water_mark = Some(9);
    let plan = txn.prepare_commit(&read).unwrap();
    assert!(matches!(&plan.actions[1], CommitAction::Add { batch: 0, row_tracking: Some((ids, 1)) }
        if *ids == vec![10, 15]));
    assert!(matches!(&plan.actions[2], CommitAction::Add { batch: 1, row_tracking: Some((ids, 1)) }
        if *ids == vec![17]));
    assert!(matches!(&plan.actions[3], CommitAction::DomainMetadata(d)
        if d.domain() == "delta.rowTracking"
            && d.configuration() == "{\"rowIdHighWaterMark\":17}"));

    read.file_stats = vec![counted(&[None]), counted(&[Some(1)])];
    assert_eq!(
        txn.prepare_commit(&read).unwrap_err(),
        Error::generic("numRecords must be present in Add actions when row tracking is enabled.")
    );
}

#[test]
fn row_identifiers_start_at_zero() {
    let ids = assign_row_ids(-1, &vec![Some(3), Some(4)]).unwrap();
    assert_eq!(ids.base_row_ids, vec![0, 3]);
    assert_eq!(ids.high_water_mark, 6);
    assert!(assign_row_ids(i64::MAX - 1, &vec![Some(3)]).is_err());
    let batches = assign_batch_row_ids(-1, &vec![counted(&[Some(3)]), counted(&[Some(4)])]).unwrap();
    assert_eq!(batches.base_row_ids, vec![vec![0], vec![3]]);
    assert_eq!(batches.high_water_mark, 6);
}

#[test]
fn tables_without_data_change_feed_accept_mixed_commits() {
    let mut txn = create_existing_table_txn().with_operation("MERGE".to_string());
    add_dummy_file(&mut txn);
    txn.remove_files(FilteredEngineData::with_all_rows_selected("gone"));
    assert!(txn.prepare_commit(&inputs(vec![dummy_stats()])).is_ok());
}

#[test]
fn change_data_feed_tables_refuse_mixed_commits() {
    let snapshot = writer_table(
        &[("delta.enableChangeDataFeed", "true")],
        &[TableFeature::ChangeDataFeed],
    );
    let mut txn = transaction(snapshot);
    add_dummy_file(&mut txn);
    txn.remove_files(FilteredEngineData::with_all_rows_selected("gone"));
    assert!(txn.prepare_commit(&inputs(vec![dummy_stats()])).is_err());
}

#[test]
fn engine_commit_info_gives_way_to_the_library() {
    let schema = StructType::new_unchecked(vec![
        StructField::nullable("x", DataType::long()),
        StructField::nullable("operation", DataType::string()),
        StructField::nullable("y", DataType::string()),
    ]);
    let txn = create_existing_table_txn()
        .with_operation("WRITE".to_string())
        .with_commit_info("info", schema.clone());
    assert_eq!(txn.engine_commit_info, Some(("info", schema.clone())));
    let plan = txn.prepare_commit(&inputs(vec![])).unwrap();
    let merged = plan.commit_info.unwrap();
    assert_eq!(merged.input_schema, schema);
    let DataType::Struct(action) = merged.output_schema.field("commitInfo").unwrap().data_type()
    else {
        panic!("not a struct");
    };
    assert_eq!(action.num_fields(), 10);
    assert_eq!(action.fields()[2].name(), "operation");
    assert_eq!(action.fields()[8].name(), "x");
    assert_eq!(action.fields()[9].name(), "y");
    let RowExpression::NestedValues(values) = &merged.expression else {
        panic!("not a struct of values");
    };
    assert_eq!(values.len(), 10);
    assert_eq!(values[2], Expression::Literal(Scalar::String("WRITE".to_string())));
    assert_eq!(values[8], Expression::Column(ColumnName::new(["x"])));
    assert_eq!(values[9], Expression::Column(ColumnName::new(["y"])));
    assert!(create_existing_table_txn()
        .prepare_commit(&inputs(vec![]))
        .unwrap()
        .commit_info
        .is_none());
}

#[test]
fn scan_metadata_become_removable_files() {
    let scanned = vec![
        Ok(ScanMetadata { scan_files: scan_batch("a", &[("p", true)]) }),
        Err(Error::generic("broken")),
    ];
    let files = Txn::scan_metadata_to_engine_data(scanned);
    assert_eq!(files.len(), 2);
    assert_eq!(files[0], Ok(scan_batch("a", &[("p", true)])));
    assert_eq!(files[1], Err(Error::generic("broken")));
}

#[test]
fn unsupported_tables_cannot_be_written() {
    let widened = [TableFeature::TypeWidening];
    let snapshot = snapshot_of(value_schema(), &[], &[], modern(&widened, &widened));
    let result: DeltaResult<Txn> = Transaction::try_new_existing_table(snapshot, false, None, 1000);
    assert!(matches!(result, Err(Error::Unsupported(_))));
}

#[test]
fn the_snapshot_of_a_new_table_cannot_be_read() {
    let txn = create_table_txn(TABLE_ROOT, false).unwrap();
    assert!(txn.read_snapshot().is_err());
    assert!(create_existing_table_txn().read_snapshot().is_ok());
}
