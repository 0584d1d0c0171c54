//! What each change of a schema makes of it, and when it is refused.
use vstd::prelude::*;

use crate::alter_table::{self, AlterView, EvolutionView, OperationView};
use crate::column_mapping;
use crate::commit_path;
use crate::mapping_laws;
use crate::schema::{self, FieldView};
use crate::schema_json;
use crate::schema_transform;
use crate::table_configuration::{self, ConfigView};
use crate::table_features::{ColumnMappingMode, Operation};
use crate::table_properties;
use crate::text;

verus! {

/// Whether a schema has a column of a name.
pub open spec fn has_column(s: Seq<FieldView>, name: Seq<char>) -> bool {
    exists|i: int| 0 <= i < s.len() && (#[trigger] s[i]).name == name
}

/// There is a field of a name exactly where it is found.
proof fn lemma_has_column(s: Seq<FieldView>, name: Seq<char>)
    ensures
        has_column(s, name) <==> schema::field_position(s, name) is Some,
        schema::field_position(s, name) matches Some(i) ==> 0 <= i < s.len() && s[i].name == name,
{
    schema::lemma_field_position(s, name);
    if let Some(i) = schema::field_position(s, name) {
        assert(s[i].name == name);
    }
}

/// Adding a column leaves the others as they are and puts the new one after them. Without column
/// mapping the new column is exactly the given one: its name, its type, whether it holds nulls, and
/// its metadata. With column mapping it is the given one but for identifiers and physical names, and
/// its own identifier follows the highest one so far.
pub proof fn added_columns_are_the_given_ones(
    s: EvolutionView,
    field: FieldView,
    mode: ColumnMappingMode,
    base: int,
    names: Seq<Seq<char>>,
)
    ensures
        alter_table::evolved_by(s, OperationView::AddColumn { field }, mode, base, names) matches Ok(
            e,
        ) ==> {
            &&& e.schema.len() == s.schema.len() + 1
            &&& forall|i: int| 0 <= i < s.schema.len() ==> #[trigger] e.schema[i] == s.schema[i]
            &&& mode is NoMapping ==> e.schema[s.schema.len() as int] == field && e.max_id == s.max_id
            &&& !(mode is NoMapping) ==> {
                let new = e.schema[s.schema.len() as int];
                &&& mapping_laws::field_agrees(field, new)
                &&& mapping_laws::held_physical_name(new) == "col-"@ + names[s.max_id - base]
                &&& i64::MIN <= s.max_id < i64::MAX ==> column_mapping::column_id(new) == s.max_id + 1
            }
        },
{
    if !(mode is NoMapping) {
        mapping_laws::mapping_only_annotates_columns(field, s.max_id, base, names);
        column_mapping::lemma_annotation_keys_differ();
        let new = column_mapping::mapped_field(field, s.max_id, base, names);
        assert(new.metadata.dom().contains("delta.columnMapping.id"@));
    }
}

/// A column can be added exactly where the schema has none of its name, and it can hold nulls; with
/// column mapping, no struct inside it may hold a name twice.
pub proof fn columns_are_added_exactly_if_new_and_nullable(
    s: EvolutionView,
    field: FieldView,
    mode: ColumnMappingMode,
    base: int,
    names: Seq<Seq<char>>,
)
    ensures
        ({
            let r = alter_table::evolved_by(
                s,
                OperationView::AddColumn { field },
                mode,
                base,
                names,
            );
            r is Ok <==> !has_column(s.schema, field.name) && field.nullable && (mode is NoMapping
                || mapping_laws::can_be_mapped(field, false))
        }),
{
    lemma_has_column(s.schema, field.name);
    mapping_laws::lemma_field_assign_fault(field, false);
}

/// Letting a column hold nulls changes that and nothing else: one column of the name holds nulls now,
/// and every other one is as before. It is done exactly where there is such a column.
pub proof fn set_nullable_changes_nothing_else(
    s: EvolutionView,
    column: Seq<char>,
    mode: ColumnMappingMode,
    base: int,
    names: Seq<Seq<char>>,
)
    ensures
        ({
            let r = alter_table::evolved_by(
                s,
                OperationView::SetNullable { column },
                mode,
                base,
                names,
            );
            &&& r is Ok <==> has_column(s.schema, column)
            &&& r matches Ok(e) ==> {
                &&& e.max_id == s.max_id
                &&& e.schema.len() == s.schema.len()
                &&& exists|p: int|
                    {
                        &&& 0 <= p < s.schema.len()
                        &&& (#[trigger] s.schema[p]).name == column
                        &&& e.schema[p].nullable
                        &&& e.schema[p].name == column
                        &&& e.schema[p].data_type == s.schema[p].data_type
                        &&& e.schema[p].metadata == s.schema[p].metadata
                        &&& e.schema[p].metadata_keys == s.schema[p].metadata_keys
                        &&& forall|i: int|
                            0 <= i < s.schema.len() && i != p ==> #[trigger] e.schema[i]
                                == s.schema[i]
                    }
            }
        }),
{
    lemma_has_column(s.schema, column);
}

/// Renaming a column gives one column of the old name the new one and leaves every other column as it
/// is. It is done exactly where columns are mapped by name, there is a column of the old name, and
/// none of the new one.
pub proof fn renames_change_one_name(
    s: EvolutionView,
    column: Seq<char>,
    new_name: Seq<char>,
    mode: ColumnMappingMode,
    base: int,
    names: Seq<Seq<char>>,
)
    ensures
        ({
            let r = alter_table::evolved_by(
                s,
                OperationView::RenameColumn { column, new_name },
                mode,
                base,
                names,
            );
            &&& r is Ok <==> mode is Name && has_column(s.schema, column) && !has_column(
                s.schema,
                new_name,
            )
            &&& r matches Ok(e) ==> {
                &&& e.max_id == s.max_id
                &&& e.schema.len() == s.schema.len()
                &&& exists|p: int|
                    {
                        &&& 0 <= p < s.schema.len()
                        &&& (#[trigger] s.schema[p]).name == column
                        &&& e.schema[p].name == new_name
                        &&& e.schema[p].nullable == s.schema[p].nullable
                        &&& e.schema[p].data_type == s.schema[p].data_type
                        &&& e.schema[p].metadata == s.schema[p].metadata
                        &&& forall|i: int|
                            0 <= i < s.schema.len() && i != p ==> #[trigger] e.schema[i]
                                == s.schema[i]
                    }
            }
        }),
{
    lemma_has_column(s.schema, column);
    lemma_has_column(s.schema, new_name);
}

/// Dropping a column takes out one column of the name and leaves the others as they are, in order. It
/// is done exactly where columns are mapped and there is such a column.
pub proof fn drops_take_out_one_column(
    s: EvolutionView,
    column: Seq<char>,
    mode: ColumnMappingMode,
    base: int,
    names: Seq<Seq<char>>,
)
    ensures
        ({
            let r = alter_table::evolved_by(
                s,
                OperationView::DropColumn { column },
                mode,
                base,
                names,
            );
            &&& r is Ok <==> !(mode is NoMapping) && has_column(s.schema, column)
            &&& r matches Ok(e) ==> {
                &&& e.max_id == s.max_id
                &&& e.schema.len() == s.schema.len() - 1
                &&& exists|p: int|
                    {
                        &&& 0 <= p < s.schema.len()
                        &&& (#[trigger] s.schema[p]).name == column
                        &&& forall|i: int| 0 <= i < p ==> #[trigger] e.schema[i] == s.schema[i]
                        &&& forall|i: int|
                            p <= i < e.schema.len() ==> #[trigger] e.schema[i] == s.schema[i + 1]
                    }
            }
        }),
{
    lemma_has_column(s.schema, column);
}

/// Changes are all made, in order: making one more change is making it on what those before it leave,
/// and where one of them fails, all fail.
pub proof fn every_change_is_made(
    s: Seq<FieldView>,
    ops: Seq<OperationView>,
    op: OperationView,
    mode: ColumnMappingMode,
    base: int,
    names: Seq<Seq<char>>,
)
    ensures
        alter_table::evolved(s, ops, mode, base, names) matches Ok(e) ==> alter_table::evolved(
            s,
            ops.push(op),
            mode,
            base,
            names,
        ) == alter_table::evolved_by(e, op, mode, base, names),
        alter_table::evolved(s, ops, mode, base, names) is Err ==> alter_table::evolved(
            s,
            ops.push(op),
            mode,
            base,
            names,
        ) is Err,
        alter_table::evolved(s, Seq::empty(), mode, base, names) matches Ok(e) && e.schema == s
            && e.max_id == base,
{
    assert(ops.push(op).drop_last() =~= ops);
}

/// An altered table has the schema that the changes make of the old one, and its metadata hold it; of
/// the rest of the metadata only the highest identifier of a column changes, and only where columns
/// got identifiers. The commit says that it alters the table. Without changes, and where the table
/// cannot be written, there is none.
pub proof fn altered_tables_have_the_changed_schema<D>(
    b: AlterView,
    catalog_committer: bool,
    timestamp: i64,
    names: Seq<Seq<char>>,
)
    ensures
        alter_table::altered::<D>(b, catalog_committer, timestamp, names) matches Ok(t) ==> {
            let c = b.snapshot.config;
            let base = alter_table::max_column_id(c) as int;
            &&& b.operations.len() > 0
            &&& table_configuration::operation_fault(c, Operation::Write) is None
            &&& alter_table::evolved(c.logical, b.operations, c.mode, base, names) matches Ok(e) && {
                &&& t.config.logical == e.schema
                &&& t.config.metadata.schema_string == schema_json::schema_json(e.schema)
                &&& forall|k: Seq<char>|
                    k != "delta.columnMapping.maxColumnId"@ ==> (
                    #[trigger] t.config.metadata.configuration.dom().contains(k))
                        == c.metadata.configuration.dom().contains(k) && (
                    c.metadata.configuration.dom().contains(k) ==> t.config.metadata.configuration[k]
                        == c.metadata.configuration[k])
                &&& e.max_id == base ==> t.config.metadata.configuration == c.metadata.configuration
                &&& e.max_id != base && i64::MIN <= e.max_id <= i64::MAX
                    ==> t.config.metadata.configuration.dom().contains(
                    "delta.columnMapping.maxColumnId"@,
                ) && t.config.metadata.configuration["delta.columnMapping.maxColumnId"@]
                    == text::signed_decimal(e.max_id)
            }
            &&& t.config.metadata.id == c.metadata.id
            &&& t.config.metadata.name == c.metadata.name
            &&& t.config.metadata.description == c.metadata.description
            &&& t.config.metadata.format == c.metadata.format
            &&& t.config.metadata.partition_columns == c.metadata.partition_columns
            &&& t.config.metadata.created_time == c.metadata.created_time
            &&& t.config.table_root == c.table_root
            &&& t.config.version == c.version
            &&& t.operation == Some("ALTER TABLE"@)
            &&& t.timestamp == timestamp
            &&& t.catalog_committer == catalog_committer
            &&& t.set_transactions.len() == 0 && t.user_domains.len() == 0 && t.system_domains.len()
                == 0 && t.removals.len() == 0
            &&& !t.blind_append && t.engine_info is None && t.engine_commit_info is None
            &&& t.read == Some(b.snapshot) && t.config.protocol == c.protocol
            &&& t.emit_metadata && !t.emit_protocol && !t.data_change && t.clustering is None
            &&& t.adds.len() == 0 && t.removes.len() == 0 && t.dv_files.len() == 0
        },
{
}

/// Whether changes leave partition columns alone: none of them is dropped or renamed.
pub open spec fn leave_partitions_alone(
    ops: Seq<OperationView>,
    partition: Seq<Seq<char>>,
) -> bool {
    forall|i: int|
        0 <= i < ops.len() ==> (match #[trigger] ops[i] {
            OperationView::DropColumn { column } => !partition.contains(column),
            OperationView::RenameColumn { column, .. } => !partition.contains(column),
            _ => true,
        })
}

proof fn lemma_partitions_left_alone(ops: Seq<OperationView>, partition: Seq<Seq<char>>)
    ensures
        alter_table::partition_change_fault(ops, partition) is None <==> leave_partitions_alone(
            ops,
            partition,
        ),
    decreases ops.len(),
{
    if ops.len() > 0 {
        let front = ops.drop_last();
        lemma_partitions_left_alone(front, partition);
        assert(ops[ops.len() - 1] == ops.last());
        if leave_partitions_alone(ops, partition) {
            assert forall|i: int| 0 <= i < front.len() implies (match #[trigger] front[i] {
                OperationView::DropColumn { column } => !partition.contains(column),
                OperationView::RenameColumn { column, .. } => !partition.contains(column),
                _ => true,
            }) by {
                assert(front[i] == ops[i]);
            }
        }
        if alter_table::partition_change_fault(ops, partition) is None {
            assert forall|i: int| 0 <= i < ops.len() implies (match #[trigger] ops[i] {
                OperationView::DropColumn { column } => !partition.contains(column),
                OperationView::RenameColumn { column, .. } => !partition.contains(column),
                _ => true,
            }) by {
                if i < front.len() {
                    assert(front[i] == ops[i]);
                }
            }
        }
    }
}

/// A table is altered exactly where there is a change to make, the table can be written, each change
/// can be made on what those before it leave, partition columns are left alone, and the new schema
/// fits the protocol of the table: its columns have what column mapping needs, and its types have the
/// features that they need.
pub proof fn tables_are_altered_exactly_if<D>(
    b: AlterView,
    catalog_committer: bool,
    timestamp: i64,
    names: Seq<Seq<char>>,
)
    requires
        table_configuration::config_valid(b.snapshot.config),
    ensures
        ({
            let c = b.snapshot.config;
            let base = alter_table::max_column_id(c) as int;
            alter_table::altered::<D>(b, catalog_committer, timestamp, names) is Ok <==> {
                &&& b.operations.len() > 0
                &&& table_configuration::operation_fault(c, Operation::Write) is None
                &&& leave_partitions_alone(b.operations, c.metadata.partition_columns)
                &&& alter_table::evolved(c.logical, b.operations, c.mode, base, names) matches Ok(e)
                    && schema_transform::physical_schema_fault(e.schema, c.mode) is None
                    && table_configuration::schema_feature_fault(c.protocol, e.schema) is None
            }
        }),
{
    let c = b.snapshot.config;
    let base = alter_table::max_column_id(c) as int;
    lemma_partitions_left_alone(b.operations, c.metadata.partition_columns);
    if let Ok(e) = alter_table::evolved(c.logical, b.operations, c.mode, base, names) {
        let m = alter_table::evolved_metadata(
            c.metadata,
            e.schema,
            alter_table::new_max_id(base, e.max_id),
        );
        reveal_strlit("delta.columnMapping.maxColumnId");
        reveal_strlit("delta.columnMapping.mode");
        assert("delta.columnMapping.maxColumnId"@.len() != "delta.columnMapping.mode"@.len());
        let mode = "delta.columnMapping.mode"@;
        assert(m.configuration.dom().contains(mode) == c.metadata.configuration.dom().contains(
            mode,
        ));
        assert(m.configuration.dom().contains(mode) ==> m.configuration[mode]
            == c.metadata.configuration[mode]);
        assert(table_properties::properties_of(m.configuration).column_mapping_mode
            == table_properties::properties_of(c.metadata.configuration).column_mapping_mode);
    }
}

/// Identifiers of new columns go on from the highest one that the table has recorded, and begin after
/// zero where it has recorded none.
pub proof fn identifiers_go_on_from_the_recorded_one(c: ConfigView, n: i64)
    requires
        table_configuration::config_valid(c),
    ensures
        ({
            let key = "delta.columnMapping.maxColumnId"@;
            let m = c.metadata.configuration;
            &&& !m.dom().contains(key) ==> alter_table::max_column_id(c) == 0
            &&& m.dom().contains(key) && m[key] == text::signed_decimal(n as int)
                ==> alter_table::max_column_id(c) == n
        }),
{
    commit_path::numbers_are_read_back(n, 0);
    reveal_strlit("delta.columnMapping.maxColumnId");
    reveal_strlit("delta.columnMapping.mode");
    reveal_strlit("delta.appendOnly");
    reveal_strlit("delta.checkpoint.writeStatsAsJson");
    reveal_strlit("delta.checkpoint.writeStatsAsStruct");
    reveal_strlit("delta.enableChangeDataFeed");
    reveal_strlit("delta.enableDeletionVectors");
    reveal_strlit("delta.enableInCommitTimestamps");
    reveal_strlit("delta.enableRowTracking");
    reveal_strlit("delta.rowTrackingSuspended");
    reveal_strlit("delta.enableTypeWidening");
    reveal_strlit("delta.dataSkippingNumIndexedCols");
    reveal_strlit("delta.dataSkippingStatsColumns");
    reveal_strlit("delta.inCommitTimestampEnablementVersion");
    reveal_strlit("delta.inCommitTimestampEnablementTimestamp");
    let key = "delta.columnMapping.maxColumnId"@;
    assert(key.len() == 31 && key[6] == 'c');
    assert(!table_properties::recognised(key, c.metadata.configuration[key])) by {
        assert("delta.columnMapping.mode"@.len() == 24);
        assert("delta.appendOnly"@.len() == 16);
        assert("delta.checkpoint.writeStatsAsJson"@.len() == 33);
        assert("delta.checkpoint.writeStatsAsStruct"@.len() == 35);
        assert("delta.enableChangeDataFeed"@[6] == 'e');
        assert("delta.enableDeletionVectors"@[6] == 'e');
        assert("delta.enableInCommitTimestamps"@[6] == 'e');
        assert("delta.enableRowTracking"@[6] == 'e');
        assert("delta.rowTrackingSuspended"@[6] == 'r');
        assert("delta.enableTypeWidening"@[6] == 'e');
        assert("delta.dataSkippingNumIndexedCols"@[6] == 'd');
        assert("delta.dataSkippingStatsColumns"@[6] == 'd');
        assert("delta.inCommitTimestampEnablementVersion"@[6] == 'i');
        assert("delta.inCommitTimestampEnablementTimestamp"@[6] == 'i');
    }
}

} // verus!
