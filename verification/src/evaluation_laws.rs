//! What holds of the rows that become actions.
use vstd::prelude::*;

use crate::action_schemas;
use crate::evaluation::{
    self, EditView, ExpressionView, RowExpressionView, Source, BASE_ROW_ID_NAME,
    CLUSTERING_PROVIDER_NAME, DEFAULT_ROW_COMMIT_VERSION_NAME, FILE_CONSTANT_VALUES_NAME,
    NEW_DELETION_VECTOR_NAME, TAGS_NAME,
};
use crate::scalars::ScalarView;
use crate::schema::{self, FieldView, PrimitiveType};

verus! {

/// Whether the columns of a row fit a schema: there are as many, and each column that is passed on
/// stands where the schema has its name.
pub open spec fn row_fits(row: Seq<Source>, schema: Seq<FieldView>) -> bool {
    &&& row.len() == schema.len()
    &&& forall|i: int| 0 <= i < row.len() ==> source_fits(#[trigger] row[i], schema[i].name)
}

/// Whether a column can stand under a name: one that is passed on only under its own.
pub open spec fn source_fits(source: Source, name: Seq<char>) -> bool {
    match source {
        Source::Field(n) => n == name,
        Source::Value(ExpressionView::Column(path)) => path.last() == name || path.last()
            == NEW_DELETION_VECTOR_NAME@,
        Source::Value(ExpressionView::ToJson(path)) => path.last() == name,
        Source::Value(ExpressionView::Literal(_)) => true,
    }
}

/// The names of the columns that are edited are distinct.
pub proof fn lemma_scan_names_differ()
    ensures
        "path"@ != "size"@,
        "path"@ != "modificationTime"@,
        "path"@ != "stats"@,
        "path"@ != "deletionVector"@,
        "path"@ != FILE_CONSTANT_VALUES_NAME@,
        "path"@ != NEW_DELETION_VECTOR_NAME@,
        "path"@ != "partitionValues"@,
        "size"@ != "modificationTime"@,
        "size"@ != "stats"@,
        "size"@ != "deletionVector"@,
        "size"@ != FILE_CONSTANT_VALUES_NAME@,
        "size"@ != NEW_DELETION_VECTOR_NAME@,
        "modificationTime"@ != "stats"@,
        "modificationTime"@ != "deletionVector"@,
        "modificationTime"@ != FILE_CONSTANT_VALUES_NAME@,
        "modificationTime"@ != NEW_DELETION_VECTOR_NAME@,
        "modificationTime"@ != "partitionValues"@,
        "stats"@ != "deletionVector"@,
        "stats"@ != FILE_CONSTANT_VALUES_NAME@,
        "stats"@ != NEW_DELETION_VECTOR_NAME@,
        "stats"@ != "partitionValues"@,
        "deletionVector"@ != FILE_CONSTANT_VALUES_NAME@,
        "deletionVector"@ != NEW_DELETION_VECTOR_NAME@,
        FILE_CONSTANT_VALUES_NAME@ != NEW_DELETION_VECTOR_NAME@,
{
    reveal_strlit("path");
    reveal_strlit("size");
    reveal_strlit("modificationTime");
    reveal_strlit("stats");
    reveal_strlit("deletionVector");
    reveal_strlit("fileConstantValues");
    reveal_strlit("newDeletionVector");
    reveal_strlit("partitionValues");
    assert("path"@.len() == 4 && "path"@[0] == 'p');
    assert("size"@.len() == 4 && "size"@[0] == 's');
    assert("modificationTime"@.len() == 16);
    assert("stats"@.len() == 5);
    assert("deletionVector"@.len() == 14);
    assert(FILE_CONSTANT_VALUES_NAME@.len() == 18);
    assert(NEW_DELETION_VECTOR_NAME@.len() == 17);
    assert("partitionValues"@.len() == 15);
}

/// The row that a remove action is made of.
pub open spec fn remove_row(timestamp: i64, data_change: bool) -> Seq<Source> {
    seq![
        Source::Field("path"@),
        Source::Value(ExpressionView::Literal(ScalarView::Long(timestamp))),
        Source::Value(ExpressionView::Literal(ScalarView::Boolean(data_change))),
        Source::Value(ExpressionView::Literal(ScalarView::Boolean(true))),
        Source::Value(ExpressionView::Column(evaluation::constant_path("partitionValues"@))),
        Source::Field("size"@),
        Source::Field("stats"@),
        Source::Value(ExpressionView::Column(evaluation::constant_path(TAGS_NAME@))),
        Source::Field("deletionVector"@),
        Source::Value(ExpressionView::Column(evaluation::constant_path(BASE_ROW_ID_NAME@))),
        Source::Value(ExpressionView::Column(evaluation::constant_path(DEFAULT_ROW_COMMIT_VERSION_NAME@))),
    ]
}

/// A row of a scan becomes a remove action with a value for every column, each in its place: the
/// time of the commit, whether the data changes, and the values that the file already had.
pub proof fn remove_rows_fit_their_schema(timestamp: i64, data_change: bool)
    ensures
        evaluation::edited_row(schema::field_names(evaluation::scan_row_fields()), evaluation::remove_edits(timestamp, data_change))
            == remove_row(timestamp, data_change),
        row_fits(remove_row(timestamp, data_change), action_schemas::remove_fields()),
{
    lemma_scan_names_differ();
    let names = schema::field_names(evaluation::scan_row_fields());
    let edits = evaluation::remove_edits(timestamp, data_change);
    reveal_with_fuel(evaluation::edited_row, 8);
    reveal_with_fuel(evaluation::edited_field, 11);
    reveal_with_fuel(evaluation::inserted_after, 11);
    assert(names =~= seq![
        "path"@,
        "size"@,
        "modificationTime"@,
        "stats"@,
        "deletionVector"@,
        FILE_CONSTANT_VALUES_NAME@,
    ]);
    assert(evaluation::edited_row(names, edits) =~= remove_row(timestamp, data_change));
}

/// The row that an add action is made of.
pub open spec fn add_row(data_change: bool, row_tracking: bool) -> Seq<Source> {
    let base = seq![
        Source::Field("path"@),
        Source::Field("partitionValues"@),
        Source::Field("size"@),
        Source::Field("modificationTime"@),
        Source::Value(ExpressionView::Literal(ScalarView::Boolean(data_change))),
        Source::Value(ExpressionView::ToJson(seq!["stats"@])),
    ];
    if row_tracking {
        base.push(Source::Field("baseRowId"@)).push(Source::Field("defaultRowCommitVersion"@))
    } else {
        base
    }
}

/// The names of the columns for row tracking differ from those of an added file.
proof fn lemma_row_tracking_names_differ()
    ensures
        forall|i: int|
            0 <= i < evaluation::base_add_files_fields().len() ==> (
            #[trigger] evaluation::base_add_files_fields()[i]).name != "baseRowId"@
                && evaluation::base_add_files_fields()[i].name != "defaultRowCommitVersion"@,
        "baseRowId"@ != "defaultRowCommitVersion"@,
        "dataChange"@ != "baseRowId"@,
        "dataChange"@ != "defaultRowCommitVersion"@,
        "dataChange"@ != "stats"@,
        "size"@ != "partitionValues"@,
{
    reveal_strlit("path");
    reveal_strlit("size");
    reveal_strlit("modificationTime");
    reveal_strlit("stats");
    reveal_strlit("partitionValues");
    reveal_strlit("baseRowId");
    reveal_strlit("defaultRowCommitVersion");
    reveal_strlit("dataChange");
    assert("path"@.len() == 4);
    assert("size"@.len() == 4);
    assert("modificationTime"@.len() == 16);
    assert("stats"@.len() == 5);
    assert("partitionValues"@.len() == 15);
    assert("baseRowId"@.len() == 9);
    assert("defaultRowCommitVersion"@.len() == 23);
    assert("dataChange"@.len() == 10);
    let s = evaluation::base_add_files_fields();
    assert(s.len() == 5);
    assert(s[0].name == "path"@ && s[1].name == "partitionValues"@ && s[2].name == "size"@
        && s[3].name == "modificationTime"@ && s[4].name == "stats"@);
}

/// The names of the columns before and after an added file becomes an add action.
pub proof fn lemma_add_names(row_tracking: bool)
    ensures
        schema::field_names(evaluation::add_evaluation_of(true, row_tracking).input) == (
        if row_tracking {
            seq![
                "path"@,
                "partitionValues"@,
                "size"@,
                "modificationTime"@,
                "stats"@,
                "baseRowId"@,
                "defaultRowCommitVersion"@,
            ]
        } else {
            seq!["path"@, "partitionValues"@, "size"@, "modificationTime"@, "stats"@]
        }),
        schema::field_names(evaluation::add_output_fields(row_tracking)) == (if row_tracking {
            seq![
                "path"@,
                "partitionValues"@,
                "size"@,
                "modificationTime"@,
                "dataChange"@,
                "stats"@,
                "baseRowId"@,
                "defaultRowCommitVersion"@,
            ]
        } else {
            seq!["path"@, "partitionValues"@, "size"@, "modificationTime"@, "dataChange"@, "stats"@]
        }),
{
    lemma_scan_names_differ();
    lemma_row_tracking_names_differ();
    let input = evaluation::base_add_files_fields();
    schema::lemma_field_position(input, "baseRowId"@);
    assert(schema::field_position(input, "baseRowId"@) is None);
    let base_id = schema::plain_field(
        "baseRowId"@,
        schema::primitive(PrimitiveType::Long),
        true,
    );
    let input1 = input.push(base_id);
    schema::lemma_field_position(input1, "defaultRowCommitVersion"@);
    assert(schema::field_position(input1, "defaultRowCommitVersion"@) is None) by {
        assert forall|j: int| 0 <= j < input1.len() implies input1[j].name
            != "defaultRowCommitVersion"@ by {
            if j < input.len() {
                assert(input1[j] == input[j]);
            }
        }
    }
    let output = evaluation::add_files_fields_with_data_change();
    let m = evaluation::mandatory_add_file_fields();
    assert(forall|i: int| 0 <= i < 4 ==> output[i] == m[i]);
    assert(output.len() == 6 && output[4].name == "dataChange"@ && output[5].name == "stats"@);
    schema::lemma_field_position_is(output, "stats"@, 5);
    let text_output = evaluation::with_stats_text(output);
    assert(text_output.len() == 6);
    assert forall|j: int| 0 <= j < 6 implies text_output[j].name == output[j].name by {}
    assert forall|j: int| 0 <= j < 6 implies text_output[j].name != "baseRowId"@
        && text_output[j].name != "defaultRowCommitVersion"@ by {
        if j < 4 {
            assert(output[j] == m[j]);
            assert(input[j] == m[j]);
        }
    }
    schema::lemma_field_position(text_output, "baseRowId"@);
    let output1 = text_output.push(base_id);
    schema::lemma_field_position(output1, "defaultRowCommitVersion"@);
    assert(schema::field_position(output1, "defaultRowCommitVersion"@) is None) by {
        assert forall|j: int| 0 <= j < output1.len() implies output1[j].name
            != "defaultRowCommitVersion"@ by {
            if j < 6 {
                assert(output1[j] == text_output[j]);
            }
        }
    }
    assert(schema::field_names(evaluation::add_evaluation_of(true, row_tracking).input) =~= (
    if row_tracking {
        seq![
            "path"@,
            "partitionValues"@,
            "size"@,
            "modificationTime"@,
            "stats"@,
            "baseRowId"@,
            "defaultRowCommitVersion"@,
        ]
    } else {
        seq!["path"@, "partitionValues"@, "size"@, "modificationTime"@, "stats"@]
    }));
    assert(schema::field_names(evaluation::add_output_fields(row_tracking)) =~= (if row_tracking {
        seq![
            "path"@,
            "partitionValues"@,
            "size"@,
            "modificationTime"@,
            "dataChange"@,
            "stats"@,
            "baseRowId"@,
            "defaultRowCommitVersion"@,
        ]
    } else {
        seq!["path"@, "partitionValues"@, "size"@, "modificationTime"@, "dataChange"@, "stats"@]
    }));
}

/// The metadata of an added file become an add action with a value for every column, each in its
/// place: whether the data changes, the statistics as text, and what the engine reported.
pub proof fn add_rows_fit_their_schema(data_change: bool, row_tracking: bool)
    ensures
        evaluation::edited_row(
            schema::field_names(evaluation::add_evaluation_of(data_change, row_tracking).input),
            evaluation::add_edits(data_change),
        ) == add_row(data_change, row_tracking),
        row_fits(add_row(data_change, row_tracking), evaluation::add_output_fields(row_tracking)),
{
    lemma_scan_names_differ();
    lemma_row_tracking_names_differ();
    lemma_add_names(row_tracking);
    let names = schema::field_names(evaluation::add_evaluation_of(data_change, row_tracking).input);
    assert(names == schema::field_names(
        evaluation::add_evaluation_of(true, row_tracking).input,
    ));
    let edits = evaluation::add_edits(data_change);
    reveal_with_fuel(evaluation::edited_row, 9);
    reveal_with_fuel(evaluation::edited_field, 4);
    reveal_with_fuel(evaluation::inserted_after, 4);
    reveal_strlit("baseRowId");
    reveal_strlit("defaultRowCommitVersion");
    reveal_strlit("modificationTime");
    reveal_strlit("stats");
    assert("baseRowId"@.len() == 9 && "defaultRowCommitVersion"@.len() == 23
        && "modificationTime"@.len() == 16 && "stats"@.len() == 5);
    assert(evaluation::edited_row(names, edits) =~= add_row(data_change, row_tracking));
    let out = evaluation::add_output_fields(row_tracking);
    let row = add_row(data_change, row_tracking);
    assert(row.len() == schema::field_names(out).len());
    assert forall|i: int| 0 <= i < row.len() implies source_fits(#[trigger] row[i], out[i].name) by {
        assert(out[i].name == schema::field_names(out)[i]);
    }
}

/// A scan row with a new deletion vector becomes a scan row with that vector in place of the old
/// one.
pub proof fn new_dv_rows_fit_their_schema()
    ensures
        evaluation::edited_row(
            schema::field_names(evaluation::intermediate_dv_fields()),
            evaluation::new_dv_edits(),
        ) == seq![
            Source::Field("path"@),
            Source::Field("size"@),
            Source::Field("modificationTime"@),
            Source::Field("stats"@),
            Source::Value(ExpressionView::Column(seq![NEW_DELETION_VECTOR_NAME@])),
            Source::Field(FILE_CONSTANT_VALUES_NAME@),
        ],
        row_fits(
            evaluation::edited_row(
                schema::field_names(evaluation::intermediate_dv_fields()),
                evaluation::new_dv_edits(),
            ),
            evaluation::scan_row_fields(),
        ),
{
    lemma_scan_names_differ();
    let names = schema::field_names(evaluation::intermediate_dv_fields());
    let edits = evaluation::new_dv_edits();
    reveal_with_fuel(evaluation::edited_row, 9);
    reveal_with_fuel(evaluation::edited_field, 4);
    reveal_with_fuel(evaluation::inserted_after, 4);
    assert(names =~= seq![
        "path"@,
        "size"@,
        "modificationTime"@,
        "stats"@,
        "deletionVector"@,
        FILE_CONSTANT_VALUES_NAME@,
        NEW_DELETION_VECTOR_NAME@,
    ]);
    assert(evaluation::edited_row(names, edits) =~= seq![
        Source::Field("path"@),
        Source::Field("size"@),
        Source::Field("modificationTime"@),
        Source::Field("stats"@),
        Source::Value(ExpressionView::Column(seq![NEW_DELETION_VECTOR_NAME@])),
        Source::Field(FILE_CONSTANT_VALUES_NAME@),
    ]);
}

/// A scan row becomes an add action with a value for every column, each in its place.
pub proof fn restored_rows_fit_their_schema()
    ensures
        evaluation::restored_values().len() == evaluation::restored_add_fields().len(),
        forall|i: int|
            0 <= i < evaluation::restored_values().len() ==> source_fits(
                Source::Value(#[trigger] evaluation::restored_values()[i]),
                evaluation::restored_add_fields()[i].name,
            ),
{
}

/// The row that a restored add action is made of.
pub open spec fn restored_row(data_change: bool) -> Seq<Source> {
    seq![
        Source::Field("path"@),
        Source::Field("partitionValues"@),
        Source::Field("size"@),
        Source::Field("modificationTime"@),
        Source::Value(ExpressionView::Literal(ScalarView::Boolean(data_change))),
        Source::Field("stats"@),
        Source::Field(TAGS_NAME@),
        Source::Field("deletionVector"@),
        Source::Field(BASE_ROW_ID_NAME@),
        Source::Field(DEFAULT_ROW_COMMIT_VERSION_NAME@),
        Source::Field(CLUSTERING_PROVIDER_NAME@),
    ]
}

/// A restored add action gets the column that says whether the data changes, in its place.
pub proof fn data_change_rows_fit_their_schema(data_change: bool)
    ensures
        evaluation::data_change_evaluation_of(data_change).expression matches
            RowExpressionView::NestedIn(_, edits) && evaluation::edited_row(
            schema::field_names(evaluation::restored_add_fields()),
            edits,
        ) == restored_row(data_change) && row_fits(
            restored_row(data_change),
            action_schemas::add_fields(),
        ),
{
    lemma_scan_names_differ();
    lemma_row_tracking_names_differ();
    reveal_strlit("modificationTime");
    reveal_strlit("tags");
    reveal_strlit("clusteringProvider");
    reveal_strlit("baseRowId");
    reveal_strlit("defaultRowCommitVersion");
    assert("modificationTime"@.len() == 16);
    assert(TAGS_NAME@.len() == 4);
    assert(CLUSTERING_PROVIDER_NAME@.len() == 18);
    assert(BASE_ROW_ID_NAME@.len() == 9);
    assert(DEFAULT_ROW_COMMIT_VERSION_NAME@.len() == 23);
    let value = ExpressionView::Literal(ScalarView::Boolean(data_change));
    let edits = seq![EditView::InsertAfter { field: "modificationTime"@, value }];
    let names = schema::field_names(evaluation::restored_add_fields());
    reveal_with_fuel(evaluation::edited_row, 12);
    reveal_with_fuel(evaluation::edited_field, 3);
    reveal_with_fuel(evaluation::inserted_after, 3);
    assert(names =~= seq![
        "path"@,
        "partitionValues"@,
        "size"@,
        "modificationTime"@,
        "stats"@,
        TAGS_NAME@,
        "deletionVector"@,
        BASE_ROW_ID_NAME@,
        DEFAULT_ROW_COMMIT_VERSION_NAME@,
        CLUSTERING_PROVIDER_NAME@,
    ]);
    assert(evaluation::edited_row(names, edits) =~= restored_row(data_change));
}

} // verus!
