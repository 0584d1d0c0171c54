use delta_kernel::alter_table::{
    apply_operations_with, apply_schema_operations, SchemaOperation, ALTER_TABLE_OPERATION,
};
use delta_kernel::commit::CommitPlan;
use delta_kernel::commit_plan::{CommitAction, CommitInputs};
use delta_kernel::commit_result::{CommitResponse, CommitResult};
use delta_kernel::create_table::LogListing;
use delta_kernel::create_table_builder::create_table;
use delta_kernel::data_layout::DataLayout;
use delta_kernel::error::{DeltaResult, Error};
use delta_kernel::file_sizes::StagedSizes;
use delta_kernel::path::FileMeta;
use delta_kernel::schema::{DataType, MetadataValue, StructField, StructType};
use delta_kernel::schema_transform::ColumnMetadataKey;
use delta_kernel::snapshot::Snapshot;
use delta_kernel::string_map::StringMap;
use delta_kernel::table_features::ColumnMappingMode;
use delta_kernel::transaction::{AlterTable, Transaction};

fn three_columns() -> StructType {
    StructType::new_unchecked(vec![
        StructField::new("id", DataType::integer(), false),
        StructField::nullable("name", DataType::string()),
        StructField::nullable("age", DataType::integer()),
    ])
}

fn add_email() -> Vec<SchemaOperation> {
    vec![SchemaOperation::AddColumn {
        field: StructField::nullable("email", DataType::string()),
    }]
}

#[test]
fn add_column_no_column_mapping() {
    let result =
        apply_schema_operations(&three_columns(), &add_email(), ColumnMappingMode::NoMapping, 0)
            .expect("add_column should succeed");

    assert_eq!(result.schema.num_fields(), 4);
    let email_field = result.schema.field("email").expect("email field should exist");
    assert_eq!(email_field.data_type(), &DataType::string());
    assert!(email_field.is_nullable());
    assert!(result.new_max_column_id.is_none());
}

#[test]
fn add_column_with_column_mapping() {
    let result =
        apply_schema_operations(&three_columns(), &add_email(), ColumnMappingMode::Name, 3)
            .expect("add_column should succeed");

    assert_eq!(result.schema.num_fields(), 4);
    let email_field = result.schema.field("email").expect("email field should exist");

    let col_id = email_field
        .get_config_value(&ColumnMetadataKey::ColumnMappingId)
        .expect("should have column ID");
    assert_eq!(col_id, &MetadataValue::Number(4));

    let phys_name = email_field
        .get_config_value(&ColumnMetadataKey::ColumnMappingPhysicalName)
        .expect("should have physical name");
    assert!(matches!(phys_name, MetadataValue::String(s) if s.starts_with("col-")));

    assert_eq!(result.new_max_column_id, Some(4));
}

#[test]
fn add_duplicate_column_fails() {
    let ops = vec![SchemaOperation::AddColumn {
        field: StructField::nullable("name", DataType::string()),
    }];
    let err = apply_schema_operations(&three_columns(), &ops, ColumnMappingMode::NoMapping, 0)
        .expect_err("duplicate column should fail");
    assert!(err.to_string().contains("already exists"));
}

#[test]
fn add_non_nullable_column_fails() {
    let ops = vec![SchemaOperation::AddColumn {
        field: StructField::new("email", DataType::string(), false),
    }];
    let err = apply_schema_operations(&three_columns(), &ops, ColumnMappingMode::NoMapping, 0)
        .expect_err("non-nullable should fail");
    assert!(err.to_string().contains("non-nullable"));
}

#[test]
fn empty_operations_succeeds_at_schema_level() {
    let result =
        apply_schema_operations(&three_columns(), &vec![], ColumnMappingMode::NoMapping, 0)
            .expect("empty ops should succeed at schema level");
    assert_eq!(result.schema.num_fields(), 3);
}

fn physical_name(field: &StructField) -> &str {
    match field.get_config_value(&ColumnMetadataKey::ColumnMappingPhysicalName) {
        Some(MetadataValue::String(s)) => s.as_str(),
        _ => panic!("no physical name"),
    }
}

#[test]
fn added_structs_get_identifiers_in_depth() {
    let inner = DataType::struct_type_unchecked(vec![
        StructField::nullable("city", DataType::string()),
        StructField::nullable("zip", DataType::string()),
    ]);
    let ops = vec![SchemaOperation::AddColumn {
        field: StructField::nullable("address", inner),
    }];
    let names: Vec<String> = ["a", "b", "c"].iter().map(|n| n.to_string()).collect();
    let result =
        apply_operations_with(&three_columns(), &ops, ColumnMappingMode::Id, 7, &names).unwrap();
    assert_eq!(result.new_max_column_id, Some(10));
    let address = result.schema.field("address").unwrap();
    assert_eq!(
        address.get_config_value(&ColumnMetadataKey::ColumnMappingId),
        Some(&MetadataValue::Number(8))
    );
    assert_eq!(physical_name(address), "col-a");
    let DataType::Struct(inner) = address.data_type() else {
        panic!("Expected a struct");
    };
    assert_eq!(physical_name(&inner.fields()[0]), "col-b");
    assert_eq!(physical_name(&inner.fields()[1]), "col-c");
    assert_eq!(
        inner.fields()[1].get_config_value(&ColumnMetadataKey::ColumnMappingId),
        Some(&MetadataValue::Number(10))
    );
}

#[test]
fn operations_on_missing_columns_fail() {
    let missing = || "missing".to_string();
    let cases = vec![
        SchemaOperation::SetNullable { column: missing() },
        SchemaOperation::DropColumn { column: missing() },
        SchemaOperation::RenameColumn { column: missing(), new_name: "new".to_string() },
    ];
    for op in cases {
        let err =
            apply_schema_operations(&three_columns(), &vec![op], ColumnMappingMode::Name, 3)
                .unwrap_err();
        assert!(err.to_string().contains("missing"), "{err:?}");
    }
    let taken = vec![SchemaOperation::RenameColumn {
        column: "name".to_string(),
        new_name: "age".to_string(),
    }];
    let err =
        apply_schema_operations(&three_columns(), &taken, ColumnMappingMode::Name, 3).unwrap_err();
    assert!(err.to_string().contains("already exists"), "{err:?}");
}

#[test]
fn changes_see_what_those_before_them_leave() {
    let add = |name: &str| SchemaOperation::AddColumn {
        field: StructField::nullable(name, DataType::string()),
    };
    let set = || SchemaOperation::SetNullable { column: "id".to_string() };
    let apply = |schema: &StructType, ops: Vec<SchemaOperation>| {
        apply_schema_operations(schema, &ops, ColumnMappingMode::NoMapping, 5)
    };
    let all = apply(&three_columns(), vec![add("x"), set(), add("y")]).unwrap();
    let middle = apply(&three_columns(), vec![add("x"), set()]).unwrap();
    let last = apply(&middle.schema, vec![add("y")]).unwrap();
    assert_eq!(all.schema, last.schema);
    assert_eq!(all.new_max_column_id, None);
    assert_eq!(
        apply(&three_columns(), vec![add("x"), add("x")]).unwrap_err(),
        apply(&apply(&three_columns(), vec![add("x")]).unwrap().schema, vec![add("x")]).unwrap_err()
    );
}

const COLUMN_MAPPING_NAME: [(&str, &str); 1] = [("delta.columnMapping.mode", "name")];

fn nothing_read() -> CommitInputs {
    CommitInputs {
        previous_in_commit_timestamp: None,
        row_id_high_water_mark: None,
        existing_domains: StringMap::new(),
        file_stats: vec![],
    }
}

fn written<S: std::fmt::Debug>(txn: Transaction<S, u64>, plan: CommitPlan) -> CommitResult<S, u64> {
    let location = format!(
        "{}{:020}.json",
        plan.commit_metadata.log_root, plan.commit_metadata.version
    );
    let response = Ok(CommitResponse::Committed { file_meta: FileMeta::new(location, 0, 10) });
    let sizes = StagedSizes { added: vec![], removed: vec![] };
    txn.commit(plan, response, &sizes).unwrap()
}

fn commit<S: std::fmt::Debug>(txn: Transaction<S, u64>) -> DeltaResult<Snapshot> {
    let plan = txn.prepare_commit(&nothing_read())?;
    let committed = written(txn, plan).unwrap_committed();
    Ok(committed.post_commit_snapshot().unwrap().clone())
}

fn create_test_table<const N: usize>(
    schema: StructType,
    table_properties: [(&str, &str); N],
) -> DeltaResult<Snapshot> {
    let txn: Transaction<_, u64> = create_table("memory:///table/", schema, "test/1.0")
        .with_table_properties(table_properties)
        .build("memory:///table/".to_string(), &LogListing::Empty, false, 0, 1)?;
    commit(txn)
}

fn two_column_schema() -> DeltaResult<StructType> {
    StructType::try_new(vec![
        StructField::new("id", DataType::integer(), false),
        StructField::nullable("name", DataType::string()),
    ])
}

fn three_column_schema() -> DeltaResult<StructType> {
    StructType::try_new(vec![
        StructField::new("id", DataType::integer(), false),
        StructField::nullable("name", DataType::string()),
        StructField::nullable("age", DataType::integer()),
    ])
}

type AlterResult = DeltaResult<Transaction<AlterTable, u64>>;

#[test]
fn alter_table_add_column() -> Result<(), delta_kernel::error::Error> {
    let snapshot = create_test_table(two_column_schema()?, [])?;
    assert_eq!(snapshot.version(), 0);
    assert_eq!(snapshot.schema().num_fields(), 2);

    let snapshot = commit(
        snapshot
            .alter_table()
            .add_column(StructField::nullable("email", DataType::string()))
            .build(false, 2)?,
    )?;

    assert_eq!(snapshot.version(), 1);
    let evolved_schema = snapshot.schema();
    assert_eq!(evolved_schema.num_fields(), 3);

    let email_field = evolved_schema
        .field("email")
        .expect("email field should exist after ALTER TABLE");
    assert_eq!(email_field.data_type(), &DataType::string());
    assert!(email_field.is_nullable());
    Ok(())
}

#[test]
fn alter_table_add_column_with_column_mapping() -> Result<(), delta_kernel::error::Error> {
    let snapshot = create_test_table(two_column_schema()?, COLUMN_MAPPING_NAME)?;
    let snapshot = commit(
        snapshot
            .alter_table()
            .add_column(StructField::nullable("email", DataType::string()))
            .build(false, 2)?,
    )?;

    assert_eq!(snapshot.version(), 1);
    let evolved_schema = snapshot.schema();
    assert_eq!(evolved_schema.num_fields(), 3);

    let email_field = evolved_schema.field("email").unwrap();
    assert!(
        email_field.get_config_value(&ColumnMetadataKey::ColumnMappingId).is_some(),
        "email should have a column mapping ID"
    );
    assert!(
        email_field
            .get_config_value(&ColumnMetadataKey::ColumnMappingPhysicalName)
            .is_some(),
        "email should have a physical name"
    );
    assert_eq!(
        snapshot
            .table_configuration()
            .metadata()
            .configuration()
            .get("delta.columnMapping.maxColumnId"),
        Some(&"3".to_string())
    );
    Ok(())
}

#[test]
fn alter_table_empty_operations_rejected() -> Result<(), delta_kernel::error::Error> {
    let schema = StructType::try_new(vec![StructField::nullable("id", DataType::integer())])?;
    let snapshot = create_test_table(schema, [])?;

    let result: AlterResult = snapshot.alter_table().build(false, 2);
    assert!(result.is_err(), "empty operations should be rejected");
    assert!(result
        .unwrap_err()
        .to_string()
        .contains("At least one schema operation"));
    Ok(())
}

#[test]
fn alter_table_add_non_nullable_column_rejected() -> Result<(), delta_kernel::error::Error> {
    let snapshot = create_test_table(two_column_schema()?, [])?;
    let result: AlterResult = snapshot
        .alter_table()
        .add_column(StructField::new("required_col", DataType::string(), false))
        .build(false, 2);
    assert!(result.is_err());
    assert!(result.unwrap_err().to_string().contains("non-nullable"));
    Ok(())
}

#[test]
fn alter_table_sequential_adds_stack_correctly() -> Result<(), delta_kernel::error::Error> {
    let snapshot = create_test_table(two_column_schema()?, [])?;
    let snapshot_v1 = commit(
        snapshot
            .alter_table()
            .add_column(StructField::nullable("email", DataType::string()))
            .build(false, 2)?,
    )?;
    assert_eq!(snapshot_v1.version(), 1);
    assert_eq!(snapshot_v1.schema().num_fields(), 3);

    let snapshot_v2 = commit(
        snapshot_v1
            .alter_table()
            .add_column(StructField::nullable("phone", DataType::string()))
            .build(false, 3)?,
    )?;
    assert_eq!(snapshot_v2.version(), 2);
    let schema = snapshot_v2.schema();
    assert_eq!(schema.num_fields(), 4);
    assert!(schema.field("id").is_some());
    assert!(schema.field("name").is_some());
    assert!(schema.field("email").is_some());
    assert!(schema.field("phone").is_some());
    Ok(())
}

#[test]
fn alter_table_post_commit_snapshot_has_correct_version() -> Result<(), delta_kernel::error::Error>
{
    let snapshot = create_test_table(two_column_schema()?, [])?;
    let txn: Transaction<AlterTable, u64> = snapshot
        .alter_table()
        .add_column(StructField::nullable("email", DataType::string()))
        .build(false, 2)?;
    let plan = txn.prepare_commit(&nothing_read())?;
    let post_commit_snapshot = match written(txn, plan) {
        CommitResult::CommittedTransaction(committed) => committed
            .post_commit_snapshot()
            .expect("post-commit snapshot should exist")
            .clone(),
        other => panic!("Expected CommittedTransaction, got: {other:?}"),
    };

    assert_eq!(post_commit_snapshot.version(), 1);
    Ok(())
}

#[test]
fn alter_table_commit_log_contains_metadata_action() -> Result<(), delta_kernel::error::Error> {
    let snapshot = create_test_table(two_column_schema()?, [])?;
    let txn: Transaction<AlterTable, u64> = snapshot
        .alter_table()
        .add_column(StructField::nullable("email", DataType::string()))
        .build(false, 2)?;
    let plan = txn.prepare_commit(&nothing_read())?;

    let metadata = plan.actions.iter().find_map(|a| match a {
        CommitAction::Metadata(m) => Some(m),
        _ => None,
    });
    assert!(metadata.is_some(), "commit log should contain a metaData action");
    assert!(
        metadata.unwrap().schema_string().contains("email"),
        "metaData action should include the new email column in schemaString"
    );
    assert!(
        matches!(&plan.actions[0], CommitAction::CommitInfo(info)
            if info.operation == Some(ALTER_TABLE_OPERATION.to_string())),
        "commit log should contain commitInfo"
    );
    assert_eq!(plan.actions.len(), 2);
    assert!(plan.commit_metadata.new_metadata.is_some());
    assert!(plan.commit_metadata.new_protocol.is_none());
    Ok(())
}

#[test]
fn alter_table_set_nullable() -> Result<(), delta_kernel::error::Error> {
    let snapshot = create_test_table(two_column_schema()?, [])?;
    let snapshot = commit(snapshot.alter_table().set_nullable("id").build(false, 2)?)?;
    assert_eq!(snapshot.version(), 1);
    let evolved_schema = snapshot.schema();
    let id_field = evolved_schema.field("id").expect("id field should exist");
    assert!(id_field.is_nullable(), "id should now be nullable");
    Ok(())
}

#[test]
fn alter_table_drop_column() -> Result<(), delta_kernel::error::Error> {
    let snapshot = create_test_table(three_column_schema()?, COLUMN_MAPPING_NAME)?;
    let snapshot = commit(snapshot.alter_table().drop_column("age").build(false, 2)?)?;
    assert_eq!(snapshot.version(), 1);
    let evolved_schema = snapshot.schema();
    assert_eq!(evolved_schema.num_fields(), 2);
    assert!(evolved_schema.field("id").is_some());
    assert!(evolved_schema.field("name").is_some());
    assert!(evolved_schema.field("age").is_none(), "age should be removed");
    Ok(())
}

#[test]
fn alter_table_rename_column() -> Result<(), delta_kernel::error::Error> {
    let snapshot = create_test_table(two_column_schema()?, COLUMN_MAPPING_NAME)?;
    let before = physical_name(snapshot.schema().field("name").unwrap()).to_string();
    let snapshot =
        commit(snapshot.alter_table().rename_column("name", "full_name").build(false, 2)?)?;
    assert_eq!(snapshot.version(), 1);
    let evolved_schema = snapshot.schema();
    assert_eq!(evolved_schema.num_fields(), 2);
    assert!(evolved_schema.field("name").is_none());
    assert!(evolved_schema.field("full_name").is_some());

    let full_name_field = evolved_schema.field("full_name").unwrap();
    assert!(
        full_name_field
            .get_config_value(&ColumnMetadataKey::ColumnMappingPhysicalName)
            .is_some(),
        "renamed column should preserve its physical name"
    );
    assert_eq!(physical_name(full_name_field), before);
    Ok(())
}

#[test]
fn alter_table_drop_without_column_mapping_rejected() -> Result<(), delta_kernel::error::Error> {
    let snapshot = create_test_table(two_column_schema()?, [])?;
    let result: AlterResult = snapshot.alter_table().drop_column("name").build(false, 2);
    assert!(result.is_err());
    assert!(result
        .unwrap_err()
        .to_string()
        .contains("column mapping must be enabled"));
    Ok(())
}

#[test]
fn alter_table_rename_without_column_mapping_rejected() -> Result<(), delta_kernel::error::Error> {
    let snapshot = create_test_table(two_column_schema()?, [])?;
    let result: AlterResult =
        snapshot.alter_table().rename_column("name", "full_name").build(false, 2);
    assert!(result.is_err());
    assert!(result
        .unwrap_err()
        .to_string()
        .contains("column mapping mode must be 'name'"));
    Ok(())
}

#[test]
fn alter_table_chained_operations() -> Result<(), delta_kernel::error::Error> {
    let snapshot = create_test_table(three_column_schema()?, COLUMN_MAPPING_NAME)?;
    let snapshot = commit(
        snapshot
            .alter_table()
            .add_column(StructField::nullable("email", DataType::string()))
            .drop_column("age")
            .rename_column("name", "full_name")
            .set_nullable("id")
            .build(false, 2)?,
    )?;
    assert_eq!(snapshot.version(), 1);
    let evolved_schema = snapshot.schema();
    assert_eq!(evolved_schema.num_fields(), 3);

    let id_field = evolved_schema.field("id").expect("id should exist");
    assert!(id_field.is_nullable(), "id should be nullable");

    assert!(evolved_schema.field("full_name").is_some());
    assert!(evolved_schema.field("email").is_some());
    assert!(evolved_schema.field("name").is_none());
    assert!(evolved_schema.field("age").is_none());
    Ok(())
}

fn identifiers(schema: &StructType) -> Vec<i64> {
    schema
        .fields()
        .iter()
        .map(|f| match f.get_config_value(&ColumnMetadataKey::ColumnMappingId) {
            Some(MetadataValue::Number(n)) => *n,
            _ => panic!("no identifier"),
        })
        .collect()
}

#[test]
fn dropped_identifiers_do_not_come_again() -> DeltaResult<()> {
    let snapshot = create_test_table(three_column_schema()?, COLUMN_MAPPING_NAME)?;
    assert_eq!(identifiers(snapshot.schema()), vec![1, 2, 3]);
    let dropped = snapshot.schema().fields()[2].name.clone();
    let txn: Transaction<AlterTable, u64> = snapshot
        .alter_table()
        .drop_column(&dropped)
        .add_column(StructField::nullable("email", DataType::string()))
        .build(false, 0)?;
    let after = commit(txn)?;
    assert_eq!(identifiers(after.schema()), vec![1, 2, 4]);
    let txn: Transaction<AlterTable, u64> = after
        .alter_table()
        .add_column(StructField::nullable(&dropped, DataType::string()))
        .build(false, 0)?;
    assert_eq!(identifiers(commit(txn)?.schema()), vec![1, 2, 4, 5]);
    Ok(())
}

#[test]
fn partition_columns_are_neither_dropped_nor_renamed() -> DeltaResult<()> {
    let table = || -> DeltaResult<Snapshot> {
        let txn: Transaction<_, u64> =
            create_table("memory:///table/", two_column_schema()?, "test/1.0")
                .with_table_properties(COLUMN_MAPPING_NAME)
                .with_data_layout(DataLayout::partitioned(["name"]))
                .build("memory:///table/".to_string(), &LogListing::Empty, false, 0, 1)?;
        commit(txn)
    };
    let dropped: DeltaResult<Transaction<AlterTable, u64>> =
        table()?.alter_table().drop_column("name").build(false, 0);
    assert_eq!(
        dropped.unwrap_err(),
        Error::generic("Cannot drop column 'name': it is a partition column")
    );
    let renamed: DeltaResult<Transaction<AlterTable, u64>> =
        table()?.alter_table().rename_column("name", "title").build(false, 0);
    assert_eq!(
        renamed.unwrap_err(),
        Error::generic("Cannot rename column 'name': it is a partition column")
    );
    let txn: Transaction<AlterTable, u64> =
        table()?.alter_table().rename_column("id", "key").build(false, 0)?;
    let after = commit(txn)?;
    assert_eq!(after.table_configuration().partition_columns(), &vec!["name".to_string()]);
    assert!(after.schema().field("name").is_some());
    Ok(())
}
