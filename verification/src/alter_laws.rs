//! What holds of every change of a schema.
use vstd::prelude::*;

use crate::alter_table::{self, AlterView, EvolutionView, OperationView};
use crate::column_mapping;
use crate::commit_path;
use crate::error::ErrorView;
use crate::schema::{self, FieldView};
use crate::schema_transform::{self, COLUMN_MAPPING_ID_KEY, COLUMN_MAPPING_PHYSICAL_NAME_KEY};
use crate::snapshot;
use crate::table_configuration;
use crate::table_features::ColumnMappingMode;
use crate::table_properties::{self, COLUMN_MAPPING_MAX_COLUMN_ID};
use crate::text;
use crate::transaction;

verus! {

/// Whether the names of fields are distinct.
pub open spec fn names_distinct(s: Seq<FieldView>) -> bool {
    forall|i: int, j: int| 0 <= i < j < s.len() ==> (#[trigger] s[i]).name != (#[trigger] s[j]).name
}

/// A change keeps the names of the columns distinct.
proof fn lemma_change_keeps_names_distinct(
    s: EvolutionView,
    op: OperationView,
    mode: ColumnMappingMode,
    base: int,
    names: Seq<Seq<char>>,
)
    requires
        names_distinct(s.schema),
    ensures
        alter_table::evolved_by(s, op, mode, base, names) matches Ok(e) ==> names_distinct(e.schema),
{
    if let Ok(e) = alter_table::evolved_by(s, op, mode, base, names) {
        match op {
            OperationView::AddColumn { field } => {
                schema::lemma_field_position(s.schema, field.name);
                assert forall|i: int, j: int| 0 <= i < j < e.schema.len() implies (
                #[trigger] e.schema[i]).name != (#[trigger] e.schema[j]).name by {
                    assert(e.schema[i] == s.schema[i]);
                }
            },
            OperationView::SetNullable { column } => {
                schema::lemma_field_position(s.schema, column);
                assert forall|i: int, j: int| 0 <= i < j < e.schema.len() implies (
                #[trigger] e.schema[i]).name != (#[trigger] e.schema[j]).name by {
                    assert(s.schema[i].name != s.schema[j].name);
                }
            },
            OperationView::DropColumn { column } => {
                schema::lemma_field_position(s.schema, column);
                let p = schema::field_position(s.schema, column)->0;
                assert forall|i: int, j: int| 0 <= i < j < e.schema.len() implies (
                #[trigger] e.schema[i]).name != (#[trigger] e.schema[j]).name by {
                    let a = if i < p {
                        i
                    } else {
                        i + 1
                    };
                    let b = if j < p {
                        j
                    } else {
                        j + 1
                    };
                    assert(e.schema[i] == s.schema[a]);
                    assert(e.schema[j] == s.schema[b]);
                }
            },
            OperationView::RenameColumn { column, new_name } => {
                schema::lemma_field_position(s.schema, column);
                schema::lemma_field_position(s.schema, new_name);
                assert forall|i: int, j: int| 0 <= i < j < e.schema.len() implies (
                #[trigger] e.schema[i]).name != (#[trigger] e.schema[j]).name by {
                    assert(s.schema[i].name != s.schema[j].name);
                }
            },
        }
    }
}

/// Changes keep the names of the columns of the top level distinct.
pub proof fn evolved_names_stay_distinct(
    s: Seq<FieldView>,
    ops: Seq<OperationView>,
    mode: ColumnMappingMode,
    base: int,
    names: Seq<Seq<char>>,
)
    requires
        names_distinct(s),
    ensures
        alter_table::evolved(s, ops, mode, base, names) matches Ok(e) ==> names_distinct(e.schema),
    decreases ops.len(),
{
    if ops.len() > 0 {
        evolved_names_stay_distinct(s, ops.drop_last(), mode, base, names);
        if let Ok(front) = alter_table::evolved(s, ops.drop_last(), mode, base, names) {
            lemma_change_keeps_names_distinct(front, ops.last(), mode, base, names);
        }
    }
}

/// Adding columns leaves the others alone: they stay in their places as they are, and the new ones
/// come after them in the order in which they were added, each able to hold nulls.
pub proof fn added_columns_come_last(
    s: Seq<FieldView>,
    ops: Seq<OperationView>,
    mode: ColumnMappingMode,
    base: int,
    names: Seq<Seq<char>>,
)
    requires
        forall|i: int| 0 <= i < ops.len() ==> (#[trigger] ops[i]) is AddColumn,
    ensures
        alter_table::evolved(s, ops, mode, base, names) matches Ok(e) ==> {
            &&& e.schema.len() == s.len() + ops.len()
            &&& e.schema.take(s.len() as int) == s
            &&& forall|i: int|
                0 <= i < ops.len() ==> e.schema[s.len() + i].name == ((#[trigger] ops[i])->field).name
                    && e.schema[s.len() + i].nullable
        },
    decreases ops.len(),
{
    if ops.len() == 0 {
        assert(s.take(s.len() as int) =~= s);
    } else {
        let front = ops.drop_last();
        let n = ops.len() - 1;
        assert forall|i: int| 0 <= i < front.len() implies (#[trigger] front[i]) is AddColumn by {
            assert(front[i] == ops[i]);
        }
        added_columns_come_last(s, front, mode, base, names);
        if let Ok(e) = alter_table::evolved(s, ops, mode, base, names) {
            let before = alter_table::evolved(s, front, mode, base, names)->Ok_0;
            assert(ops[n] is AddColumn);
            assert(e.schema.drop_last() =~= before.schema);
            assert(e.schema.take(s.len() as int) =~= before.schema.take(s.len() as int));
            assert forall|i: int| 0 <= i < ops.len() implies e.schema[s.len() + i].name == ((
            #[trigger] ops[i])->field).name && e.schema[s.len() + i].nullable by {
                if i < n {
                    assert(front[i] == ops[i]);
                    assert(e.schema[s.len() + i] == before.schema[s.len() + i]);
                }
            }
        }
    }
}

/// With column mapping, a new column and those inside it get the identifiers right after the highest
/// one so far, and the highest one grows with them, so that no identifier is ever given twice.
pub proof fn added_columns_get_fresh_ids(
    s: EvolutionView,
    field: FieldView,
    mode: ColumnMappingMode,
    base: int,
    names: Seq<Seq<char>>,
)
    requires
        !(mode is NoMapping),
        i64::MIN <= s.max_id,
        s.max_id + 1 + column_mapping::type_field_count(field.data_type) <= i64::MAX,
    ensures
        alter_table::evolved_by(s, OperationView::AddColumn { field }, mode, base, names) matches Ok(e) ==> {
            &&& column_mapping::column_ids(e.schema) == column_mapping::column_ids(s.schema) + column_mapping::following(
                s.max_id,
                (e.max_id - s.max_id) as nat,
            )
            &&& e.max_id > s.max_id
        },
{
    if let Ok(e) = alter_table::evolved_by(s, OperationView::AddColumn { field }, mode, base, names) {
        let new = column_mapping::mapped_field(field, s.max_id, base, names);
        assert(e.schema.drop_last() =~= s.schema);
        assert(e.schema.last() == new);
        column_mapping::lemma_annotation_keys_differ();
        column_mapping::lemma_type_column_ids(field.data_type, s.max_id + 1, base, names);
        assert(new.data_type == column_mapping::mapped_type(field.data_type, s.max_id + 1, base, names));
        assert(new.metadata.dom().contains(COLUMN_MAPPING_ID_KEY@));
        assert(column_mapping::column_id(new) == s.max_id + 1);
        assert(column_mapping::column_ids(e.schema) =~= column_mapping::column_ids(s.schema) + column_mapping::following(
            s.max_id,
            (e.max_id - s.max_id) as nat,
        ));
    }
}

/// A renamed column keeps everything but its name: its type, whether it holds nulls, and its
/// metadata, and with them its identifier and the name by which data files hold it.
pub proof fn renames_keep_physical_names(
    s: EvolutionView,
    column: Seq<char>,
    new_name: Seq<char>,
    mode: ColumnMappingMode,
    base: int,
    names: Seq<Seq<char>>,
)
    ensures
        alter_table::evolved_by(s, OperationView::RenameColumn { column, new_name }, mode, base, names) matches Ok(
            e,
        ) ==> {
            &&& e.schema.len() == s.schema.len() && e.max_id == s.max_id
            &&& forall|i: int|
                0 <= i < s.schema.len() ==> (#[trigger] e.schema[i]).data_type
                    == s.schema[i].data_type && e.schema[i].nullable == s.schema[i].nullable
                    && e.schema[i].metadata == s.schema[i].metadata && column_mapping::column_id(e.schema[i])
                    == column_mapping::column_id(s.schema[i])
            &&& forall|i: int|
                0 <= i < s.schema.len() && s.schema[i].metadata.dom().contains(
                    COLUMN_MAPPING_PHYSICAL_NAME_KEY@,
                ) && s.schema[i].metadata[COLUMN_MAPPING_PHYSICAL_NAME_KEY@] is String
                    ==> schema_transform::physical_name_of(#[trigger] e.schema[i], mode) == schema_transform::physical_name_of(
                    s.schema[i],
                    mode,
                )
            &&& schema::find_field(e.schema, new_name) is Some
        },
{
    if let Ok(e) = alter_table::evolved_by(
        s,
        OperationView::RenameColumn { column, new_name },
        mode,
        base,
        names,
    ) {
        schema::lemma_field_position(s.schema, column);
        schema::lemma_field_position(e.schema, new_name);
        let p = schema::field_position(s.schema, column)->0;
        assert(e.schema[p].name == new_name);
    }
}

/// A column that was dropped is gone, and the others stay as they are, in order.
pub proof fn dropped_columns_are_gone(
    s: EvolutionView,
    column: Seq<char>,
    mode: ColumnMappingMode,
    base: int,
    names: Seq<Seq<char>>,
)
    requires
        names_distinct(s.schema),
    ensures
        alter_table::evolved_by(s, OperationView::DropColumn { column }, mode, base, names) matches Ok(e)
            ==> schema::find_field(e.schema, column) is None && e.schema.len() == s.schema.len() - 1
            && forall|f: FieldView|
            f.name != column ==> (#[trigger] e.schema.contains(f)) == s.schema.contains(f),
{
    if let Ok(e) = alter_table::evolved_by(s, OperationView::DropColumn { column }, mode, base, names) {
        schema::lemma_field_position(s.schema, column);
        schema::lemma_field_position(e.schema, column);
        let p = schema::field_position(s.schema, column)->0;
        assert forall|j: int| 0 <= j < e.schema.len() implies e.schema[j].name != column by {
            if j < p {
                assert(e.schema[j] == s.schema[j]);
            } else {
                assert(e.schema[j] == s.schema[j + 1]);
                assert(s.schema[p].name != s.schema[j + 1].name);
            }
        }
        assert forall|f: FieldView| f.name != column implies (#[trigger] e.schema.contains(f))
            == s.schema.contains(f) by {
            if e.schema.contains(f) {
                let j = choose|j: int| 0 <= j < e.schema.len() && e.schema[j] == f;
                if j < p {
                    assert(s.schema[j] == f);
                } else {
                    assert(s.schema[j + 1] == f);
                }
            }
            if s.schema.contains(f) {
                let j = choose|j: int| 0 <= j < s.schema.len() && s.schema[j] == f;
                if j < p {
                    assert(e.schema[j] == f);
                } else {
                    assert(j != p);
                    assert(e.schema[j - 1] == f);
                }
            }
        }
    }
}

/// A transaction that changes a schema is valid and touches no data: it brings new metadata, keeps
/// the protocol, and adds and removes no files.
pub proof fn altered_transactions_touch_no_data<D>(
    b: AlterView,
    catalog_committer: bool,
    timestamp: i64,
    names: Seq<Seq<char>>,
)
    requires
        snapshot::snapshot_valid(b.snapshot),
    ensures
        alter_table::altered::<D>(b, catalog_committer, timestamp, names) matches Ok(t) ==> {
            &&& transaction::txn_valid(t)
            &&& t.emit_metadata && !t.emit_protocol && !t.data_change
            &&& t.config.protocol == b.snapshot.config.protocol
            &&& t.adds.len() == 0 && t.removes.len() == 0 && t.dv_files.len() == 0
            &&& t.read == Some(b.snapshot)
        },
{
    if let Ok(t) = alter_table::altered::<D>(b, catalog_committer, timestamp, names) {
        let c = b.snapshot.config;
        let base = alter_table::max_column_id(c) as int;
        let e = alter_table::evolved(c.logical, b.operations, c.mode, base, names)->Ok_0;
        let m = alter_table::evolved_metadata(c.metadata, e.schema, alter_table::new_max_id(base, e.max_id));
        table_configuration::configuration_stays_valid(c, Some((m, e.schema)), None, c.version);
    }
}

/// Without column mapping, a change depends neither on the physical names nor on the highest
/// identifier, and leaves the latter alone.
proof fn lemma_unmapped_changes(
    s: Seq<FieldView>,
    ops: Seq<OperationView>,
    base: int,
    names: Seq<Seq<char>>,
    other_names: Seq<Seq<char>>,
)
    ensures
        alter_table::evolved(s, ops, ColumnMappingMode::NoMapping, base, names)
            == alter_table::evolved(s, ops, ColumnMappingMode::NoMapping, base, other_names),
        alter_table::evolved(s, ops, ColumnMappingMode::NoMapping, base, names) matches Ok(e)
            ==> e.max_id == base,
    decreases ops.len(),
{
    if ops.len() > 0 {
        lemma_unmapped_changes(s, ops.drop_last(), base, names, other_names);
    }
}

/// Each change sees the schema that those before it leave: without column mapping, making the
/// changes of two lists in a row is making those of the first and then those of the second on what
/// the first leave, whatever physical names are at hand. It fails where one of the two fails, with
/// the same error.
pub proof fn changes_are_made_in_turn(
    s: Seq<FieldView>,
    first: Seq<OperationView>,
    second: Seq<OperationView>,
    base: int,
    names: Seq<Seq<char>>,
    first_names: Seq<Seq<char>>,
    second_names: Seq<Seq<char>>,
)
    ensures
        ({
            let mode = ColumnMappingMode::NoMapping;
            let all = alter_table::evolved(s, first + second, mode, base, names);
            match alter_table::evolved(s, first, mode, base, first_names) {
                Err(e) => all == Err::<EvolutionView, ErrorView>(e),
                Ok(middle) => middle.max_id == base && all == alter_table::evolved(
                    middle.schema,
                    second,
                    mode,
                    base,
                    second_names,
                ),
            }
        }),
    decreases second.len(),
{
    lemma_unmapped_changes(s, first, base, names, first_names);
    if second.len() == 0 {
        assert(first + second =~= first);
    } else {
        assert((first + second).drop_last() =~= first + second.drop_last());
        assert((first + second).last() == second.last());
        changes_are_made_in_turn(
            s,
            first,
            second.drop_last(),
            base,
            names,
            first_names,
            second_names,
        );
    }
}

/// Whether the identifiers of fields, at every depth, are distinct and none is above a given one.
pub open spec fn ids_distinct_up_to(s: Seq<FieldView>, max_id: int) -> bool {
    let ids = column_mapping::column_ids(s);
    ids.no_duplicates() && forall|i: int| 0 <= i < ids.len() ==> #[trigger] ids[i] <= max_id
}

/// The identifiers of two lists in a row are those of the first and then those of the second.
proof fn lemma_column_ids_of_sum(a: Seq<FieldView>, b: Seq<FieldView>)
    ensures
        column_mapping::column_ids(a + b) == column_mapping::column_ids(a)
            + column_mapping::column_ids(b),
    decreases b.len(),
{
    if b.len() == 0 {
        assert(a + b =~= a);
        assert(column_mapping::column_ids(a) + column_mapping::column_ids(b)
            =~= column_mapping::column_ids(a));
    } else {
        assert((a + b).drop_last() =~= a + b.drop_last());
        assert((a + b).last() == b.last());
        lemma_column_ids_of_sum(a, b.drop_last());
        assert(column_mapping::column_ids(a + b) =~= column_mapping::column_ids(a)
            + column_mapping::column_ids(b));
    }
}

/// Fields with the same identifiers and types have the same identifiers inside them.
proof fn lemma_same_column_ids(a: Seq<FieldView>, b: Seq<FieldView>)
    requires
        a.len() == b.len(),
        forall|i: int|
            0 <= i < a.len() ==> (#[trigger] a[i]).data_type == b[i].data_type && a[i].metadata
                == b[i].metadata,
    ensures
        column_mapping::column_ids(a) == column_mapping::column_ids(b),
    decreases a.len(),
{
    if a.len() > 0 {
        assert(a[a.len() - 1].metadata == b[a.len() - 1].metadata);
        assert forall|i: int| 0 <= i < a.drop_last().len() implies (
        #[trigger] a.drop_last()[i]).data_type == b.drop_last()[i].data_type
            && a.drop_last()[i].metadata == b.drop_last()[i].metadata by {
            assert(a[i].data_type == b[i].data_type);
        }
        lemma_same_column_ids(a.drop_last(), b.drop_last());
    }
}

/// A change keeps identifiers distinct and below the highest one.
proof fn lemma_change_keeps_ids_distinct(
    s: EvolutionView,
    op: OperationView,
    mode: ColumnMappingMode,
    base: int,
    names: Seq<Seq<char>>,
)
    requires
        !(mode is NoMapping),
        i64::MIN <= s.max_id,
        s.max_id + alter_table::columns_added_by(op) <= i64::MAX,
        ids_distinct_up_to(s.schema, s.max_id),
    ensures
        alter_table::evolved_by(s, op, mode, base, names) matches Ok(e) ==> ids_distinct_up_to(
            e.schema,
            e.max_id,
        ) && s.max_id <= e.max_id,
{
    if let Ok(e) = alter_table::evolved_by(s, op, mode, base, names) {
        let before = column_mapping::column_ids(s.schema);
        let after = column_mapping::column_ids(e.schema);
        match op {
            OperationView::AddColumn { field } => {
                added_columns_get_fresh_ids(s, field, mode, base, names);
                assert forall|i: int, j: int|
                    0 <= i < after.len() && 0 <= j < after.len() && i != j implies after[i]
                    != after[j] by {
                    if i < before.len() && j < before.len() {
                        assert(before[i] != before[j]);
                    } else if i < before.len() {
                        assert(before[i] <= s.max_id);
                    } else if j < before.len() {
                        assert(before[j] <= s.max_id);
                    }
                }
                assert forall|i: int| 0 <= i < after.len() implies #[trigger] after[i] <= e.max_id by {
                    if i < before.len() {
                        assert(before[i] <= s.max_id);
                    }
                }
            },
            OperationView::SetNullable { column } => {
                schema::lemma_field_position(s.schema, column);
                lemma_same_column_ids(e.schema, s.schema);
            },
            OperationView::RenameColumn { column, .. } => {
                schema::lemma_field_position(s.schema, column);
                lemma_same_column_ids(e.schema, s.schema);
            },
            OperationView::DropColumn { column } => {
                schema::lemma_field_position(s.schema, column);
                let p = schema::field_position(s.schema, column)->0;
                let left = s.schema.take(p);
                let gone = seq![s.schema[p]];
                let right = s.schema.skip(p + 1);
                assert(s.schema =~= left + gone + right);
                assert(e.schema =~= left + right);
                lemma_column_ids_of_sum(left, gone);
                lemma_column_ids_of_sum(left + gone, right);
                lemma_column_ids_of_sum(left, right);
                let x = column_mapping::column_ids(left);
                let y = column_mapping::column_ids(gone);
                assert forall|i: int| 0 <= i < after.len() implies #[trigger] after[i] == before[if i
                    < x.len() {
                    i
                } else {
                    i + y.len()
                }] by {}
            },
        }
    }
}

/// With column mapping, no two columns ever have the same identifier: where the identifiers of a
/// schema, at every depth, are distinct and at most the highest one, those of the schema after any
/// changes are distinct and at most the new highest one, which has not gone down.
pub proof fn identifiers_stay_distinct(
    s: Seq<FieldView>,
    ops: Seq<OperationView>,
    mode: ColumnMappingMode,
    base: int,
    names: Seq<Seq<char>>,
)
    requires
        !(mode is NoMapping),
        i64::MIN <= base,
        base + alter_table::columns_added(ops) <= i64::MAX,
        ids_distinct_up_to(s, base),
    ensures
        alter_table::evolved(s, ops, mode, base, names) matches Ok(e) ==> ids_distinct_up_to(
            e.schema,
            e.max_id,
        ) && base <= e.max_id <= base + alter_table::columns_added(ops),
    decreases ops.len(),
{
    if ops.len() > 0 {
        identifiers_stay_distinct(s, ops.drop_last(), mode, base, names);
        if let Ok(front) = alter_table::evolved(s, ops.drop_last(), mode, base, names) {
            lemma_change_keeps_ids_distinct(front, ops.last(), mode, base, names);
        }
    }
}

/// An integer is read back from its decimal text.
proof fn lemma_signed_decimal_read_back(n: i64)
    ensures
        text::parsed_signed(text::signed_decimal(n as int)) == Some(n),
{
    let s = text::signed_decimal(n as int);
    if n < 0 {
        commit_path::lemma_decimal_value((-n) as nat);
        assert(s.skip(1) =~= text::decimal((-n) as nat));
    } else {
        commit_path::lemma_decimal_value(n as nat);
        assert(text::is_digit(s[0]));
    }
}

/// The property for the highest identifier is none of those with a type of their own.
proof fn lemma_max_column_id_is_a_text(value: Seq<char>)
    ensures
        !table_properties::recognised(COLUMN_MAPPING_MAX_COLUMN_ID@, value),
{
    reveal_strlit("delta.columnMapping.maxColumnId");
    reveal_strlit("delta.appendOnly");
    reveal_strlit("delta.checkpoint.writeStatsAsJson");
    reveal_strlit("delta.checkpoint.writeStatsAsStruct");
    reveal_strlit("delta.columnMapping.mode");
    reveal_strlit("delta.dataSkippingNumIndexedCols");
    reveal_strlit("delta.dataSkippingStatsColumns");
    reveal_strlit("delta.enableChangeDataFeed");
    reveal_strlit("delta.enableDeletionVectors");
    reveal_strlit("delta.enableInCommitTimestamps");
    reveal_strlit("delta.enableRowTracking");
    reveal_strlit("delta.enableTypeWidening");
    reveal_strlit("delta.inCommitTimestampEnablementVersion");
    reveal_strlit("delta.inCommitTimestampEnablementTimestamp");
    reveal_strlit("delta.rowTrackingSuspended");
    let key = COLUMN_MAPPING_MAX_COLUMN_ID@;
    assert(key.len() == 31 && key[6] == 'c' && key[7] == 'o');
}

/// With column mapping, a table whose columns have distinct identifiers, none above the highest one
/// that its properties give, is altered to such a table, and its highest identifier does not go
/// down.
pub proof fn altered_tables_keep_identifiers_distinct<D>(
    b: AlterView,
    catalog_committer: bool,
    timestamp: i64,
    names: Seq<Seq<char>>,
)
    requires
        snapshot::snapshot_valid(b.snapshot),
        !(b.snapshot.config.mode is NoMapping),
        alter_table::identifiers_suffice(b),
        ids_distinct_up_to(
            b.snapshot.config.logical,
            alter_table::max_column_id(b.snapshot.config) as int,
        ),
    ensures
        alter_table::altered::<D>(b, catalog_committer, timestamp, names) matches Ok(t) ==> {
            &&& ids_distinct_up_to(t.config.logical, alter_table::max_column_id(t.config) as int)
            &&& alter_table::max_column_id(b.snapshot.config) <= alter_table::max_column_id(t.config)
        },
{
    if let Ok(t) = alter_table::altered::<D>(b, catalog_committer, timestamp, names) {
        let c = b.snapshot.config;
        let base = alter_table::max_column_id(c) as int;
        identifiers_stay_distinct(c.logical, b.operations, c.mode, base, names);
        let e = alter_table::evolved(c.logical, b.operations, c.mode, base, names)->Ok_0;
        let new_max = alter_table::new_max_id(base, e.max_id);
        if let Some(id) = new_max {
            lemma_signed_decimal_read_back(id);
            lemma_max_column_id_is_a_text(text::signed_decimal(id as int));
            let config = t.config.metadata.configuration;
            assert(config[COLUMN_MAPPING_MAX_COLUMN_ID@] == text::signed_decimal(id as int));
            assert(t.config.properties.unknown_properties.dom().contains(
                COLUMN_MAPPING_MAX_COLUMN_ID@,
            ));
        } else {
            assert(t.config.properties == c.properties);
        }
        assert(alter_table::max_column_id(t.config) == e.max_id);
    }
}

/// A change that neither drops nor renames a column leaves it its type and its metadata.
proof fn lemma_column_stays(
    s: EvolutionView,
    op: OperationView,
    mode: ColumnMappingMode,
    base: int,
    names: Seq<Seq<char>>,
    partition: Seq<Seq<char>>,
    name: Seq<char>,
)
    requires
        partition.contains(name),
        alter_table::change_fault_of(op, partition) is None,
        schema::find_field(s.schema, name) is Some,
    ensures
        alter_table::evolved_by(s, op, mode, base, names) matches Ok(e) ==> (schema::find_field(
            e.schema,
            name,
        ) matches Some(g) && g.data_type == schema::find_field(s.schema, name)->0.data_type
            && g.metadata == schema::find_field(s.schema, name)->0.metadata),
{
    if let Ok(e) = alter_table::evolved_by(s, op, mode, base, names) {
        schema::lemma_field_position(s.schema, name);
        let i = schema::field_position(s.schema, name)->0;
        match op {
            OperationView::AddColumn { field } => {
                schema::lemma_field_position_is(e.schema, name, i);
            },
            OperationView::SetNullable { column } => {
                schema::lemma_field_position(s.schema, column);
                schema::lemma_field_position_is(e.schema, name, i);
            },
            OperationView::DropColumn { column } => {
                schema::lemma_field_position(s.schema, column);
                let p = schema::field_position(s.schema, column)->0;
                let j = if p < i {
                    i - 1
                } else {
                    i
                };
                assert(e.schema[j] == s.schema[i]);
                schema::lemma_field_position_is(e.schema, name, j);
            },
            OperationView::RenameColumn { column, new_name } => {
                schema::lemma_field_position(s.schema, column);
                schema::lemma_field_position(s.schema, new_name);
                schema::lemma_field_position_is(e.schema, name, i);
            },
        }
    }
}

/// Changes that neither drop nor rename a column leave it its type and its metadata.
proof fn lemma_columns_stay(
    s: Seq<FieldView>,
    ops: Seq<OperationView>,
    mode: ColumnMappingMode,
    base: int,
    names: Seq<Seq<char>>,
    partition: Seq<Seq<char>>,
    name: Seq<char>,
)
    requires
        partition.contains(name),
        alter_table::partition_change_fault(ops, partition) is None,
        schema::find_field(s, name) is Some,
    ensures
        alter_table::evolved(s, ops, mode, base, names) matches Ok(e) ==> (schema::find_field(
            e.schema,
            name,
        ) matches Some(g) && g.data_type == schema::find_field(s, name)->0.data_type && g.metadata
            == schema::find_field(s, name)->0.metadata),
    decreases ops.len(),
{
    if ops.len() > 0 {
        lemma_columns_stay(s, ops.drop_last(), mode, base, names, partition, name);
        if let Ok(front) = alter_table::evolved(s, ops.drop_last(), mode, base, names) {
            lemma_column_stays(front, ops.last(), mode, base, names, partition, name);
        }
    }
}

/// An altered table is partitioned as before: the list of partition columns is the same, and each of
/// them that was in the schema is still there under its name, with its type and its metadata.
pub proof fn partition_columns_stay<D>(
    b: AlterView,
    catalog_committer: bool,
    timestamp: i64,
    names: Seq<Seq<char>>,
    name: Seq<char>,
)
    requires
        b.snapshot.config.metadata.partition_columns.contains(name),
        schema::find_field(b.snapshot.config.logical, name) is Some,
    ensures
        alter_table::altered::<D>(b, catalog_committer, timestamp, names) matches Ok(t) ==> {
            let c = b.snapshot.config;
            &&& t.config.metadata.partition_columns == c.metadata.partition_columns
            &&& schema::find_field(t.config.logical, name) matches Some(g) && g.data_type
                == schema::find_field(c.logical, name)->0.data_type && g.metadata
                == schema::find_field(c.logical, name)->0.metadata
        },
{
    let c = b.snapshot.config;
    if alter_table::altered::<D>(b, catalog_committer, timestamp, names) is Ok {
        lemma_columns_stay(
            c.logical,
            b.operations,
            c.mode,
            alter_table::max_column_id(c) as int,
            names,
            c.metadata.partition_columns,
            name,
        );
    }
}

} // verus!
