//! What the rows of a commit hold under the names of the format.
use vstd::prelude::*;

use crate::action_schemas;
use crate::actions::{
    self, CommitInfoView, DomainMetadataView, MetadataView, ProtocolView, SetTransactionView,
};
use crate::commit;
use crate::commit_info;
use crate::commit_plan::InputsView;
use crate::error::ErrorView;
use crate::evaluation::{self, EditView, ExpressionView, RowExpressionView, Source};
use crate::evaluation_laws;
use crate::row_literals;
use crate::scalars::ScalarView;
use crate::schema::{self, DataTypeView, FieldView, PrimitiveType};
use crate::schema_transform;
use crate::table_configuration;
use crate::table_features::{self, FeatureView};
use crate::transaction::TxnView;

verus! {

/// Whether the column of a name has a source.
pub open spec fn column_is(
    fields: Seq<FieldView>,
    row: Seq<Source>,
    name: Seq<char>,
    source: Source,
) -> bool {
    fields.len() == row.len() && exists|i: int|
        0 <= i < fields.len() && (#[trigger] fields[i]).name == name && row[i] == source
}

/// The column of a name of what is the same for all rows of a file.
pub open spec fn file_constant(name: Seq<char>) -> Source {
    Source::Value(ExpressionView::Column(seq!["fileConstantValues"@, name]))
}

/// Whether a row makes a remove action: the path, the size, the statistics and the deletion vector of
/// the file, its partition values, tags and row identifiers, the time of the removal, and whether data
/// change; and it says that it holds all of that.
pub open spec fn makes_remove(row: Seq<Source>, timestamp: i64, data_change: bool) -> bool {
    let f = action_schemas::remove_fields();
    &&& column_is(f, row, "path"@, Source::Field("path"@))
    &&& column_is(
        f,
        row,
        "deletionTimestamp"@,
        Source::Value(ExpressionView::Literal(ScalarView::Long(timestamp))),
    )
    &&& column_is(
        f,
        row,
        "dataChange"@,
        Source::Value(ExpressionView::Literal(ScalarView::Boolean(data_change))),
    )
    &&& column_is(
        f,
        row,
        "extendedFileMetadata"@,
        Source::Value(ExpressionView::Literal(ScalarView::Boolean(true))),
    )
    &&& column_is(f, row, "partitionValues"@, file_constant("partitionValues"@))
    &&& column_is(f, row, "size"@, Source::Field("size"@))
    &&& column_is(f, row, "stats"@, Source::Field("stats"@))
    &&& column_is(f, row, "tags"@, file_constant("tags"@))
    &&& column_is(f, row, "deletionVector"@, Source::Field("deletionVector"@))
    &&& column_is(f, row, "baseRowId"@, file_constant("baseRowId"@))
    &&& column_is(f, row, "defaultRowCommitVersion"@, file_constant("defaultRowCommitVersion"@))
}

/// A removed file becomes a remove action with what the scan told of it, the time of the transaction,
/// and whether the transaction changes data. That holds of files with new deletion vectors too: they
/// are removed with the vector that they had.
pub proof fn removed_files_keep_what_they_had<D>(
    t: TxnView<D>,
    inputs: InputsView,
    txn_id: Seq<char>,
    log_root: Result<Seq<char>, ErrorView>,
)
    ensures
        commit::plan_of(t, inputs, txn_id, log_root) matches Ok(p) ==> {
            let names = schema::field_names(evaluation::scan_row_fields());
            let output = schema_transform::nullable_fields(
                seq![action_schemas::action_field("remove"@, action_schemas::remove_fields())],
            );
            &&& p.remove.input == evaluation::scan_row_fields() && p.remove.output == output
            &&& p.remove.expression matches RowExpressionView::Nested(edits) && makes_remove(
                evaluation::edited_row(names, edits),
                t.timestamp,
                t.data_change,
            )
            &&& p.remove_updated.output == output
            &&& p.remove_updated.expression matches RowExpressionView::Nested(edits)
                && makes_remove(
                evaluation::edited_row(names.push("newDeletionVector"@), edits),
                t.timestamp,
                t.data_change,
            )
        },
{
    if let Ok(p) = commit::plan_of(t, inputs, txn_id, log_root) {
        let names = schema::field_names(evaluation::scan_row_fields());
        let fields = action_schemas::remove_fields();
        let edits = evaluation::remove_edits(t.timestamp, t.data_change);
        evaluation_laws::remove_rows_fit_their_schema(t.timestamp, t.data_change);
        let row = evaluation::edited_row(names, edits);
        assert(fields[0].name == "path"@ && row[0] == Source::Field("path"@));
        assert(fields[1].name == "deletionTimestamp"@);
        assert(fields[2].name == "dataChange"@);
        assert(fields[3].name == "extendedFileMetadata"@);
        assert(fields[4].name == "partitionValues"@);
        assert(row[4] == file_constant("partitionValues"@));
        assert(fields[5].name == "size"@);
        assert(fields[6].name == "stats"@);
        assert(fields[7].name == "tags"@ && row[7] == file_constant("tags"@));
        assert(fields[8].name == "deletionVector"@);
        assert(fields[9].name == "baseRowId"@ && row[9] == file_constant("baseRowId"@));
        assert(fields[10].name == "defaultRowCommitVersion"@);
        assert(row[10] == file_constant("defaultRowCommitVersion"@));
        assert(makes_remove(row, t.timestamp, t.data_change));
        let dropped = edits.push(EditView::Drop { field: "newDeletionVector"@ });
        evaluation_laws::lemma_scan_names_differ();
        assert(names =~= seq![
            "path"@,
            "size"@,
            "modificationTime"@,
            "stats"@,
            "deletionVector"@,
            "fileConstantValues"@,
        ]);
        reveal_with_fuel(evaluation::inserted_after, 11);
        lemma_dropped_column(names, edits, "newDeletionVector"@);
        assert(evaluation::edited_row(names.push("newDeletionVector"@), dropped) == row);
        assert(action_schemas::log_remove_fields() =~= seq![
            action_schemas::action_field("remove"@, action_schemas::remove_fields()),
        ]);
    }
}

/// Dropping a column that other edits do not name leaves the row that they make of the others.
proof fn lemma_dropped_column(names: Seq<Seq<char>>, edits: Seq<EditView>, name: Seq<char>)
    requires
        !names.contains(name),
        evaluation::inserted_after(name, edits) == Seq::<Source>::empty(),
    ensures
        evaluation::edited_row(names.push(name), edits.push(EditView::Drop { field: name }))
            == evaluation::edited_row(names, edits),
{
    let more = edits.push(EditView::Drop { field: name });
    assert(more.drop_last() =~= edits);
    assert(names.push(name).drop_last() =~= names);
    lemma_unnamed_drop(names, edits, name);
    assert(evaluation::edited_field(name, more) == Seq::<Source>::empty());
    assert(evaluation::inserted_after(name, more) == Seq::<Source>::empty());
    assert(evaluation::edited_row(names.push(name), more) =~= evaluation::edited_row(names, more));
}

/// Dropping a column that a row does not have changes nothing.
proof fn lemma_unnamed_drop(names: Seq<Seq<char>>, edits: Seq<EditView>, name: Seq<char>)
    requires
        !names.contains(name),
    ensures
        evaluation::edited_row(names, edits.push(EditView::Drop { field: name }))
            == evaluation::edited_row(names, edits),
    decreases names.len(),
{
    let more = edits.push(EditView::Drop { field: name });
    assert(more.drop_last() =~= edits);
    if names.len() > 0 {
        let front = names.drop_last();
        assert(names[names.len() - 1] != name);
        assert(!front.contains(name)) by {
            if front.contains(name) {
                let i = choose|i: int| 0 <= i < front.len() && front[i] == name;
                assert(names[i] == name);
            }
        }
        lemma_unnamed_drop(front, edits, name);
    }
}

/// Whether a row makes an add action of what an engine reported of a file: its path, partition values,
/// size and time, its statistics as JSON, and whether data change; with row tracking, also the
/// identifier of its first row and the version of the commit.
pub open spec fn makes_add(
    fields: Seq<FieldView>,
    row: Seq<Source>,
    data_change: bool,
    row_tracking: bool,
) -> bool {
    &&& column_is(fields, row, "path"@, Source::Field("path"@))
    &&& column_is(fields, row, "partitionValues"@, Source::Field("partitionValues"@))
    &&& column_is(fields, row, "size"@, Source::Field("size"@))
    &&& column_is(fields, row, "modificationTime"@, Source::Field("modificationTime"@))
    &&& column_is(
        fields,
        row,
        "dataChange"@,
        Source::Value(ExpressionView::Literal(ScalarView::Boolean(data_change))),
    )
    &&& column_is(
        fields,
        row,
        "stats"@,
        Source::Value(ExpressionView::ToJson(seq!["stats"@])),
    )
    &&& row_tracking ==> column_is(fields, row, "baseRowId"@, Source::Field("baseRowId"@))
        && column_is(
        fields,
        row,
        "defaultRowCommitVersion"@,
        Source::Field("defaultRowCommitVersion"@),
    )
}

/// An added file becomes an add action with what the engine reported of it, and whether the
/// transaction changes data; where rows get identifiers, with its row identifier and the version.
pub proof fn added_files_keep_what_was_reported<D>(
    t: TxnView<D>,
    inputs: InputsView,
    txn_id: Seq<char>,
    log_root: Result<Seq<char>, ErrorView>,
)
    requires
        t.adds.len() > 0,
    ensures
        commit::plan_of(t, inputs, txn_id, log_root) matches Ok(p) ==> {
            let with_ids = table_configuration::feature_supported(
                t.config.protocol,
                FeatureView::RowTracking,
            ) && t.config.properties.row_tracking_suspended != Some(true);
            &&& p.add.output.len() == 1 && p.add.output[0].name == "add"@
            &&& p.add.output[0].data_type matches DataTypeView::Struct(fields)
                && p.add.expression matches RowExpressionView::Nested(edits) && makes_add(
                fields,
                evaluation::edited_row(schema::field_names(p.add.input), edits),
                t.data_change,
                with_ids,
            ) && fields.len() == (if with_ids {
                8int
            } else {
                6
            })
        },
{
    if let Ok(p) = commit::plan_of(t, inputs, txn_id, log_root) {
        let with_ids = table_configuration::writes_row_tracking(t.config);
        evaluation_laws::add_rows_fit_their_schema(t.data_change, with_ids);
        evaluation_laws::lemma_add_names(with_ids);
        let fields = evaluation::add_output_fields(with_ids);
        let row = evaluation_laws::add_row(t.data_change, with_ids);
        let names = schema::field_names(fields);
        assert(fields.len() == names.len());
        assert forall|i: int| 0 <= i < fields.len() implies fields[i].name == #[trigger] names[i] by {}
        assert(names[0] == "path"@ && row[0] == Source::Field("path"@));
        assert(fields[0].name == "path"@);
        assert(fields[1].name == names[1] && row[1] == Source::Field("partitionValues"@));
        assert(fields[2].name == names[2] && row[2] == Source::Field("size"@));
        assert(fields[3].name == names[3] && row[3] == Source::Field("modificationTime"@));
        assert(fields[4].name == names[4]);
        assert(fields[5].name == names[5]);
        if with_ids {
            assert(fields[6].name == names[6] && row[6] == Source::Field("baseRowId"@));
            assert(fields[7].name == names[7] && row[7] == Source::Field(
                "defaultRowCommitVersion"@,
            ));
        }
    }
}

/// The column of a name, as a value.
pub open spec fn own_column(name: Seq<char>) -> Source {
    Source::Value(ExpressionView::Column(seq![name]))
}

/// A file with a new deletion vector becomes an add action in three steps. First the new vector takes
/// the place of the old one, and everything else stays. Then what the scan told of the file, among it
/// the vector that is there now, makes an add action without a word on whether data change. Last comes
/// that word, and everything else stays.
pub proof fn updated_files_get_their_new_vectors<D>(
    t: TxnView<D>,
    inputs: InputsView,
    txn_id: Seq<char>,
    log_root: Result<Seq<char>, ErrorView>,
)
    ensures
        commit::plan_of(t, inputs, txn_id, log_root) matches Ok(p) ==> {
            let scan = evaluation::scan_row_fields();
            let names = schema::field_names(scan);
            let restored = evaluation::restored_add_fields();
            let f = action_schemas::add_fields();
            &&& p.add_updated.len() == 3
            &&& p.add_updated[0].expression matches RowExpressionView::Edited(edits) && {
                let row = evaluation::edited_row(names.push("newDeletionVector"@), edits);
                &&& column_is(scan, row, "path"@, Source::Field("path"@))
                &&& column_is(scan, row, "size"@, Source::Field("size"@))
                &&& column_is(scan, row, "modificationTime"@, Source::Field("modificationTime"@))
                &&& column_is(scan, row, "stats"@, Source::Field("stats"@))
                &&& column_is(scan, row, "deletionVector"@, own_column("newDeletionVector"@))
                &&& column_is(scan, row, "fileConstantValues"@, Source::Field("fileConstantValues"@))
            }
            &&& p.add_updated[1].expression matches RowExpressionView::NestedValues(values) && {
                let row = Seq::new(values.len(), |i: int| Source::Value(values[i]));
                &&& column_is(restored, row, "path"@, own_column("path"@))
                &&& column_is(restored, row, "partitionValues"@, file_constant("partitionValues"@))
                &&& column_is(restored, row, "size"@, own_column("size"@))
                &&& column_is(restored, row, "modificationTime"@, own_column("modificationTime"@))
                &&& column_is(restored, row, "stats"@, own_column("stats"@))
                &&& column_is(restored, row, "tags"@, file_constant("tags"@))
                &&& column_is(restored, row, "deletionVector"@, own_column("deletionVector"@))
                &&& column_is(restored, row, "baseRowId"@, file_constant("baseRowId"@))
                &&& column_is(
                    restored,
                    row,
                    "defaultRowCommitVersion"@,
                    file_constant("defaultRowCommitVersion"@),
                )
                &&& column_is(
                    restored,
                    row,
                    "clusteringProvider"@,
                    file_constant("clusteringProvider"@),
                )
            }
            &&& p.add_updated[2].expression matches RowExpressionView::NestedIn(column, edits) && {
                let row = evaluation::edited_row(schema::field_names(restored), edits);
                &&& column == seq!["add"@]
                &&& column_is(f, row, "path"@, Source::Field("path"@))
                &&& column_is(f, row, "partitionValues"@, Source::Field("partitionValues"@))
                &&& column_is(f, row, "size"@, Source::Field("size"@))
                &&& column_is(f, row, "modificationTime"@, Source::Field("modificationTime"@))
                &&& column_is(
                    f,
                    row,
                    "dataChange"@,
                    Source::Value(ExpressionView::Literal(ScalarView::Boolean(t.data_change))),
                )
                &&& column_is(f, row, "stats"@, Source::Field("stats"@))
                &&& column_is(f, row, "tags"@, Source::Field("tags"@))
                &&& column_is(f, row, "deletionVector"@, Source::Field("deletionVector"@))
                &&& column_is(f, row, "baseRowId"@, Source::Field("baseRowId"@))
                &&& column_is(
                    f,
                    row,
                    "defaultRowCommitVersion"@,
                    Source::Field("defaultRowCommitVersion"@),
                )
                &&& column_is(f, row, "clusteringProvider"@, Source::Field("clusteringProvider"@))
            }
        },
{
    if let Ok(p) = commit::plan_of(t, inputs, txn_id, log_root) {
        let scan = evaluation::scan_row_fields();
        evaluation_laws::new_dv_rows_fit_their_schema();
        assert(schema::field_names(scan).push("newDeletionVector"@) =~= schema::field_names(
            evaluation::intermediate_dv_fields(),
        ));
        assert(scan[0].name == "path"@ && scan[1].name == "size"@);
        assert(scan[2].name == "modificationTime"@ && scan[3].name == "stats"@);
        assert(scan[4].name == "deletionVector"@ && scan[5].name == "fileConstantValues"@);
        let restored = evaluation::restored_add_fields();
        let values = evaluation::restored_values();
        let row = Seq::new(values.len(), |i: int| Source::Value(values[i]));
        assert(restored[0].name == "path"@ && row[0] == own_column("path"@));
        assert(restored[1].name == "partitionValues"@ && row[1] == file_constant(
            "partitionValues"@,
        ));
        assert(restored[2].name == "size"@ && row[2] == own_column("size"@));
        assert(restored[3].name == "modificationTime"@ && row[3] == own_column(
            "modificationTime"@,
        ));
        assert(restored[4].name == "stats"@ && row[4] == own_column("stats"@));
        assert(restored[5].name == "tags"@ && row[5] == file_constant("tags"@));
        assert(restored[6].name == "deletionVector"@ && row[6] == own_column("deletionVector"@));
        assert(restored[7].name == "baseRowId"@ && row[7] == file_constant("baseRowId"@));
        assert(restored[8].name == "defaultRowCommitVersion"@ && row[8] == file_constant(
            "defaultRowCommitVersion"@,
        ));
        assert(restored[9].name == "clusteringProvider"@ && row[9] == file_constant(
            "clusteringProvider"@,
        ));
        evaluation_laws::data_change_rows_fit_their_schema(t.data_change);
        let f = action_schemas::add_fields();
        assert(f[0].name == "path"@ && f[1].name == "partitionValues"@ && f[2].name == "size"@);
        assert(f[3].name == "modificationTime"@ && f[4].name == "dataChange"@);
        assert(f[5].name == "stats"@ && f[6].name == "tags"@ && f[7].name == "deletionVector"@);
        assert(f[8].name == "baseRowId"@ && f[9].name == "defaultRowCommitVersion"@);
        assert(f[10].name == "clusteringProvider"@);
    }
}

/// Whether the value under a name is the given one.
pub open spec fn value_is(
    fields: Seq<FieldView>,
    values: Seq<ScalarView>,
    name: Seq<char>,
    x: ScalarView,
) -> bool {
    fields.len() == values.len() && exists|i: int|
        0 <= i < fields.len() && (#[trigger] fields[i]).name == name && values[i] == x
}

/// A commit info is written with what it says under the names of the format; what it does not say is
/// null.
pub proof fn commit_info_is_written_by_name(c: CommitInfoView, keys: Seq<Seq<char>>)
    ensures
        ({
            let f = action_schemas::commit_info_fields();
            let v = actions::commit_info_row(c, keys);
            let no_long = ScalarView::Null(schema::primitive(PrimitiveType::Long));
            let no_text = ScalarView::Null(schema::primitive(PrimitiveType::String));
            &&& value_is(
                f,
                v,
                "timestamp"@,
                match c.timestamp {
                    Some(n) => ScalarView::Long(n),
                    None => no_long,
                },
            )
            &&& value_is(
                f,
                v,
                "inCommitTimestamp"@,
                match c.in_commit_timestamp {
                    Some(n) => ScalarView::Long(n),
                    None => no_long,
                },
            )
            &&& value_is(
                f,
                v,
                "operation"@,
                match c.operation {
                    Some(s) => ScalarView::String(s),
                    None => no_text,
                },
            )
            &&& value_is(
                f,
                v,
                "kernelVersion"@,
                match c.kernel_version {
                    Some(s) => ScalarView::String(s),
                    None => no_text,
                },
            )
            &&& value_is(
                f,
                v,
                "isBlindAppend"@,
                match c.is_blind_append {
                    Some(b) => ScalarView::Boolean(b),
                    None => ScalarView::Null(schema::primitive(PrimitiveType::Boolean)),
                },
            )
            &&& value_is(
                f,
                v,
                "engineInfo"@,
                match c.engine_info {
                    Some(s) => ScalarView::String(s),
                    None => no_text,
                },
            )
            &&& value_is(
                f,
                v,
                "txnId"@,
                match c.txn_id {
                    Some(s) => ScalarView::String(s),
                    None => no_text,
                },
            )
            &&& f[3].name == "operationParameters"@
            &&& c.operation_parameters matches Some(m) ==> maps_entries(v[3], m, keys)
            &&& c.operation_parameters is None ==> v[3] is Null
        }),
{
    let f = action_schemas::commit_info_fields();
    assert(f[0].name == "timestamp"@ && f[1].name == "inCommitTimestamp"@);
    assert(f[2].name == "operation"@ && f[4].name == "kernelVersion"@);
    assert(f[5].name == "isBlindAppend"@ && f[6].name == "engineInfo"@ && f[7].name == "txnId"@);
}

/// Where an engine adds to the commit info, the plan says how: the fields of the library come first,
/// with what the commit says of itself; every other field of the engine follows, with the value that
/// the engine gave it. Where it adds nothing, there is nothing to say.
pub proof fn engines_add_to_the_commit_info<D>(
    t: TxnView<D>,
    inputs: InputsView,
    txn_id: Seq<char>,
    log_root: Result<Seq<char>, ErrorView>,
)
    requires
        t.engine_commit_info matches Some((_, engine)) ==> schema::field_names(
            engine,
        ).no_duplicates(),
    ensures
        commit::plan_of(t, inputs, txn_id, log_root) matches Ok(p) ==> {
            let own = action_schemas::commit_info_fields();
            let said = actions::commit_info_row(p.actions[0]->CommitInfo_0, Seq::empty());
            &&& p.commit_info is Some <==> t.engine_commit_info is Some
            &&& t.engine_commit_info matches Some((_, engine)) ==> {
                let e = p.commit_info->0;
                let fields = e.output[0].data_type->Struct_0;
                let values = e.expression->NestedValues_0;
                &&& e.input == engine && e.output.len() == 1 && e.output[0].name == "commitInfo"@
                &&& e.output[0].data_type is Struct && e.expression is NestedValues
                &&& fields.len() == values.len() && own.len() <= fields.len()
                &&& forall|i: int|
                    0 <= i < own.len() ==> #[trigger] fields[i] == own[i] && values[i]
                        == ExpressionView::Literal(said[i])
                &&& forall|i: int|
                    own.len() <= i < fields.len() ==> engine.contains(#[trigger] fields[i])
                        && values[i] == ExpressionView::Column(seq![fields[i].name])
                &&& forall|i: int|
                    0 <= i < engine.len() ==> schema::field_names(fields).contains(
                        (#[trigger] engine[i]).name,
                    )
            }
        },
{
    if let Ok(p) = commit::plan_of(t, inputs, txn_id, log_root) {
        if let Some((_, engine)) = t.engine_commit_info {
            let info = p.actions[0]->CommitInfo_0;
            commit_info::engine_fields_give_way(info, Seq::empty(), engine);
        }
    }
}

/// The progress of an application is written with its identifier, its version and when it was last
/// updated under the names of the format.
pub proof fn application_transactions_are_written_by_name(t: SetTransactionView)
    ensures
        ({
            let f = action_schemas::set_transaction_fields();
            let v = actions::set_transaction_row(t);
            &&& value_is(f, v, "appId"@, ScalarView::String(t.app_id))
            &&& value_is(f, v, "version"@, ScalarView::Long(t.version))
            &&& t.last_updated matches Some(n) ==> value_is(f, v, "lastUpdated"@, ScalarView::Long(n))
            &&& t.last_updated is None ==> value_is(
                f,
                v,
                "lastUpdated"@,
                ScalarView::Null(schema::primitive(PrimitiveType::Long)),
            )
        }),
{
    let f = action_schemas::set_transaction_fields();
    assert(f[0].name == "appId"@ && f[1].name == "version"@ && f[2].name == "lastUpdated"@);
}

/// Domain metadata are written with the domain, the configuration and whether it was removed under the
/// names of the format.
pub proof fn domains_are_written_by_name(d: DomainMetadataView)
    ensures
        ({
            let f = action_schemas::domain_metadata_fields();
            let v = actions::domain_metadata_row(d);
            &&& value_is(f, v, "domain"@, ScalarView::String(d.domain))
            &&& value_is(f, v, "configuration"@, ScalarView::String(d.configuration))
            &&& value_is(f, v, "removed"@, ScalarView::Boolean(d.removed))
        }),
{
    let f = action_schemas::domain_metadata_fields();
    assert(f[0].name == "domain"@ && f[1].name == "configuration"@ && f[2].name == "removed"@);
}

/// Whether a value lists the names of features, or is null where there are none.
pub open spec fn lists_features(v: ScalarView, features: Option<Seq<FeatureView>>) -> bool {
    match features {
        None => v is Null,
        Some(list) => v matches ScalarView::Array(_, _, names) && names.len() == list.len()
            && forall|i: int|
            0 <= i < list.len() ==> #[trigger] names[i] == ScalarView::String(
                table_features::feature_name(list[i]),
            ),
    }
}

/// A protocol is written with its versions and its features under the names of the format.
pub proof fn protocols_are_written_by_name(p: ProtocolView)
    ensures
        ({
            let f = action_schemas::protocol_fields();
            let v = actions::protocol_row(p);
            &&& value_is(f, v, "minReaderVersion"@, ScalarView::Integer(p.min_reader_version))
            &&& value_is(f, v, "minWriterVersion"@, ScalarView::Integer(p.min_writer_version))
            &&& f.len() == v.len() && f[2].name == "readerFeatures"@ && lists_features(
                v[2],
                p.reader_features,
            )
            &&& f[3].name == "writerFeatures"@ && lists_features(v[3], p.writer_features)
        }),
{
    let f = action_schemas::protocol_fields();
    assert(f[0].name == "minReaderVersion"@ && f[1].name == "minWriterVersion"@);
}

/// Whether a value maps the names of entries to their values, in the order of the names.
pub open spec fn maps_entries(
    v: ScalarView,
    m: Map<Seq<char>, Seq<char>>,
    keys: Seq<Seq<char>>,
) -> bool {
    v matches ScalarView::Mapping(_, _, _, entries) && entries.len() == keys.len() && forall|i: int|
        0 <= i < keys.len() ==> #[trigger] entries[i] == (
            ScalarView::String(keys[i]),
            ScalarView::String(m[keys[i]]),
        )
}

/// The value of the last field is made of the last leaf values, those before it of the others.
proof fn lemma_nested_step(f: Seq<FieldView>, row: Seq<ScalarView>)
    requires
        f.len() > 0,
        row.len() >= row_literals::leaf_count(f.last().data_type),
    ensures
        ({
            let n = row.len() - row_literals::leaf_count(f.last().data_type);
            row_literals::nested_values(f, row) == row_literals::nested_values(
                f.drop_last(),
                row.take(n),
            ).push(row_literals::nested_value(f.last().data_type, row.skip(n)))
        }),
{
}

/// The values of the format of a table are two leaf values.
proof fn lemma_format_values(row: Seq<ScalarView>)
    requires
        row.len() == 2,
    ensures
        row_literals::leaves_in(action_schemas::format_fields()) == 2,
        row_literals::nested_values(action_schemas::format_fields(), row) == row,
{
    let g = action_schemas::format_fields();
    let h = g.drop_last();
    lemma_nested_step(g, row);
    lemma_nested_step(h, row.take(1));
    assert(h.drop_last().len() == 0);
    assert(row_literals::leaves_in(h.drop_last()) == 0);
    assert(row_literals::leaves_in(h) == 1);
    assert(row_literals::nested_values(g, row) =~= row);
}

/// The values of metadata are the leaf values, but for the format, which is made of two of them.
proof fn lemma_metadata_values(row: Seq<ScalarView>)
    requires
        row.len() == 9,
    ensures
        row_literals::nested_values(action_schemas::metadata_fields(), row) == seq![
            row[0],
            row[1],
            row[2],
            ScalarView::Struct(action_schemas::format_fields(), seq![row[3], row[4]]),
            row[5],
            row[6],
            row[7],
            row[8],
        ],
{
    let f8 = action_schemas::metadata_fields();
    let f7 = f8.drop_last();
    let f6 = f7.drop_last();
    let f5 = f6.drop_last();
    let f4 = f5.drop_last();
    let f3 = f4.drop_last();
    let f2 = f3.drop_last();
    let f1 = f2.drop_last();
    let r8 = row.take(8);
    let r7 = r8.take(7);
    let r6 = r7.take(6);
    let r5 = r6.take(5);
    let r3 = r5.take(3);
    let r2 = r3.take(2);
    let r1 = r2.take(1);
    let format = r5.skip(3);
    lemma_format_values(format);
    assert(format =~= seq![row[3], row[4]]);
    let g = action_schemas::format_fields();
    assert(row_literals::leaf_count(f4.last().data_type) == 2);
    assert(row_literals::nested_value(f4.last().data_type, format) == ScalarView::Struct(g, format));
    lemma_nested_step(f8, row);
    lemma_nested_step(f7, r8);
    lemma_nested_step(f6, r7);
    lemma_nested_step(f5, r6);
    lemma_nested_step(f4, r5);
    lemma_nested_step(f3, r3);
    lemma_nested_step(f2, r2);
    lemma_nested_step(f1, r1);
    assert(f1.drop_last().len() == 0);
    assert(row_literals::nested_values(f1, r1) =~= seq![row[0]]);
    assert(row_literals::nested_values(f2, r2) =~= seq![row[0], row[1]]);
    assert(row_literals::nested_values(f3, r3) =~= seq![row[0], row[1], row[2]]);
    assert(row_literals::nested_values(f4, r5) =~= seq![
        row[0],
        row[1],
        row[2],
        ScalarView::Struct(g, format),
    ]);
}

/// Metadata are written with everything that they hold under the names of the format; what is missing
/// is null.
pub proof fn metadata_are_written_by_name(m: MetadataView)
    ensures
        ({
            let f = action_schemas::metadata_fields();
            let v = row_literals::nested_values(f, actions::metadata_row(m));
            let no_text = ScalarView::Null(schema::primitive(PrimitiveType::String));
            let text_or_null = |s: Option<Seq<char>>|
                match s {
                    Some(s) => ScalarView::String(s),
                    None => no_text,
                };
            &&& value_is(f, v, "id"@, ScalarView::String(m.id))
            &&& value_is(f, v, "name"@, text_or_null(m.name))
            &&& value_is(f, v, "description"@, text_or_null(m.description))
            &&& value_is(f, v, "schemaString"@, ScalarView::String(m.schema_string))
            &&& value_is(
                f,
                v,
                "createdTime"@,
                match m.created_time {
                    Some(n) => ScalarView::Long(n),
                    None => ScalarView::Null(schema::primitive(PrimitiveType::Long)),
                },
            )
            &&& f[3].name == "format"@
            &&& v[3] matches ScalarView::Struct(inner, format)
                && value_is(inner, format, "provider"@, ScalarView::String(m.format.provider))
                && inner[1].name == "options"@ && maps_entries(
                format[1],
                m.format.options,
                m.format.option_keys,
            )
            &&& f[5].name == "partitionColumns"@
            &&& v[5] matches ScalarView::Array(_, _, columns)
                && columns.len() == m.partition_columns.len() && forall|i: int|
                0 <= i < columns.len() ==> #[trigger] columns[i] == ScalarView::String(
                    m.partition_columns[i],
                )
            &&& f[7].name == "configuration"@ && maps_entries(
                v[7],
                m.configuration,
                m.configuration_keys,
            )
        }),
{
    let f = action_schemas::metadata_fields();
    let g = action_schemas::format_fields();
    let row = actions::metadata_row(m);
    assert(g[0].name == "provider"@ && g[1].name == "options"@);
    assert(f[0].name == "id"@ && f[1].name == "name"@ && f[2].name == "description"@);
    assert(f[3].name == "format"@ && f[4].name == "schemaString"@);
    assert(f[5].name == "partitionColumns"@ && f[6].name == "createdTime"@);
    assert(f[7].name == "configuration"@);
    lemma_metadata_values(row);
}

} // verus!
