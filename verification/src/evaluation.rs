//! How batches of file metadata become actions: the expressions that an engine evaluates on them,
//! and the schemas before and after.
use vstd::prelude::*;

use crate::action_schemas::{
    self, as_log_add_schema, get_log_add_schema, get_log_remove_schema, ADD_NAME,
};
use crate::actions::DeletionVectorDescriptor;
use crate::expressions::ColumnName;
use crate::scalars::{Scalar, ScalarView};
use crate::schema::{
    self, position_of, DataType, DataTypeView, FieldView, PrimitiveType, StructField, StructType,
};
use crate::schema_transform::{self, make_nullable};

verus! {

/// The column that holds what is the same for all rows of a file.
pub const FILE_CONSTANT_VALUES_NAME: &'static str = "fileConstantValues";

pub const BASE_ROW_ID_NAME: &'static str = "baseRowId";

pub const DEFAULT_ROW_COMMIT_VERSION_NAME: &'static str = "defaultRowCommitVersion";

pub const TAGS_NAME: &'static str = "tags";

pub const CLUSTERING_PROVIDER_NAME: &'static str = "clusteringProvider";

/// The column that holds new deletion vectors until they are put in their place.
pub const NEW_DELETION_VECTOR_NAME: &'static str = "newDeletionVector";

/// A value that is computed for each row.
#[derive(Debug, PartialEq, Eq)]
pub enum Expression {
    Literal(Scalar),
    Column(ColumnName),
    /// The JSON text of a struct column.
    ToJson(ColumnName),
}

/// The mathematical value of an [`Expression`].
pub enum ExpressionView {
    Literal(ScalarView),
    Column(Seq<Seq<char>>),
    ToJson(Seq<Seq<char>>),
}

impl View for Expression {
    type V = ExpressionView;

    open spec fn view(&self) -> ExpressionView {
        match *self {
            Expression::Literal(s) => ExpressionView::Literal(s@),
            Expression::Column(c) => ExpressionView::Column(c@),
            Expression::ToJson(c) => ExpressionView::ToJson(c@),
        }
    }
}

/// The values of a list of expressions.
pub open spec fn expressions_view(s: Seq<Expression>) -> Seq<ExpressionView> {
    Seq::new(s.len(), |i: int| s[i]@)
}

/// A change to the fields of a row. Fields without a change stay as they are.
#[derive(Debug, PartialEq, Eq)]
pub enum FieldEdit {
    /// Inserts a value after a field and after what was inserted after it before.
    InsertAfter { field: String, value: Expression },
    /// Puts a value in the place of a field.
    Replace { field: String, value: Expression },
    /// Leaves out a field.
    Drop { field: String },
    /// Leaves out a field, which may be missing.
    DropIfExists { field: String },
}

/// The mathematical value of a [`FieldEdit`].
#[allow(inconsistent_fields)]
pub enum EditView {
    InsertAfter { field: Seq<char>, value: ExpressionView },
    Replace { field: Seq<char>, value: ExpressionView },
    Drop { field: Seq<char> },
    DropIfExists { field: Seq<char> },
}

impl View for FieldEdit {
    type V = EditView;

    open spec fn view(&self) -> EditView {
        match *self {
            FieldEdit::InsertAfter { field, value } => EditView::InsertAfter {
                field: field@,
                value: value@,
            },
            FieldEdit::Replace { field, value } => EditView::Replace {
                field: field@,
                value: value@,
            },
            FieldEdit::Drop { field } => EditView::Drop { field: field@ },
            FieldEdit::DropIfExists { field } => EditView::DropIfExists { field: field@ },
        }
    }
}

/// The values of a list of edits.
pub open spec fn edits_view(s: Seq<FieldEdit>) -> Seq<EditView> {
    Seq::new(s.len(), |i: int| s[i]@)
}

impl FieldEdit {
    fn insert_after(field: &str, value: Expression) -> (r: FieldEdit)
        ensures
            r@ == (EditView::InsertAfter { field: field@, value: value@ }),
    {
        FieldEdit::InsertAfter { field: field.to_owned(), value }
    }

    fn replace(field: &str, value: Expression) -> (r: FieldEdit)
        ensures
            r@ == (EditView::Replace { field: field@, value: value@ }),
    {
        FieldEdit::Replace { field: field.to_owned(), value }
    }

    fn drop_field(field: &str) -> (r: FieldEdit)
        ensures
            r@ == (EditView::Drop { field: field@ }),
    {
        FieldEdit::Drop { field: field.to_owned() }
    }
}

/// What an engine computes from each row.
#[derive(Debug, PartialEq, Eq)]
pub enum RowExpression {
    /// The row with edits.
    Edited(Vec<FieldEdit>),
    /// A struct that holds the row with edits as its only field.
    Nested(Vec<FieldEdit>),
    /// A struct that holds, as its only field, the given struct column with edits.
    NestedIn(ColumnName, Vec<FieldEdit>),
    /// A struct that holds a struct of the given values as its only field.
    NestedValues(Vec<Expression>),
}

/// The mathematical value of a [`RowExpression`].
pub enum RowExpressionView {
    Edited(Seq<EditView>),
    Nested(Seq<EditView>),
    NestedIn(Seq<Seq<char>>, Seq<EditView>),
    NestedValues(Seq<ExpressionView>),
}

impl View for RowExpression {
    type V = RowExpressionView;

    open spec fn view(&self) -> RowExpressionView {
        match *self {
            RowExpression::Edited(e) => RowExpressionView::Edited(edits_view(e@)),
            RowExpression::Nested(e) => RowExpressionView::Nested(edits_view(e@)),
            RowExpression::NestedIn(c, e) => RowExpressionView::NestedIn(c@, edits_view(e@)),
            RowExpression::NestedValues(v) => RowExpressionView::NestedValues(
                expressions_view(v@),
            ),
        }
    }
}

/// An expression with the schemas of the rows before and after.
#[derive(Debug, PartialEq, Eq)]
pub struct Evaluation {
    pub input_schema: StructType,
    pub expression: RowExpression,
    pub output_schema: StructType,
}

/// The mathematical value of an [`Evaluation`].
pub struct EvaluationView {
    pub input: Seq<FieldView>,
    pub expression: RowExpressionView,
    pub output: Seq<FieldView>,
}

impl View for Evaluation {
    type V = EvaluationView;

    open spec fn view(&self) -> EvaluationView {
        EvaluationView {
            input: self.input_schema@,
            expression: self.expression@,
            output: self.output_schema@,
        }
    }
}

/// Where a column of an edited row comes from.
pub enum Source {
    Field(Seq<char>),
    Value(ExpressionView),
}

/// What an edited row has in the place of a field.
pub open spec fn edited_field(name: Seq<char>, edits: Seq<EditView>) -> Seq<Source>
    decreases edits.len(),
{
    if edits.len() == 0 {
        seq![Source::Field(name)]
    } else {
        match edits.last() {
            EditView::Replace { field, value } => if field == name {
                seq![Source::Value(value)]
            } else {
                edited_field(name, edits.drop_last())
            },
            EditView::Drop { field } => if field == name {
                Seq::empty()
            } else {
                edited_field(name, edits.drop_last())
            },
            EditView::DropIfExists { field } => if field == name {
                Seq::empty()
            } else {
                edited_field(name, edits.drop_last())
            },
            EditView::InsertAfter { .. } => edited_field(name, edits.drop_last()),
        }
    }
}

/// What an edited row has after a field.
pub open spec fn inserted_after(name: Seq<char>, edits: Seq<EditView>) -> Seq<Source>
    decreases edits.len(),
{
    if edits.len() == 0 {
        Seq::empty()
    } else {
        let front = inserted_after(name, edits.drop_last());
        match edits.last() {
            EditView::InsertAfter { field, value } => if field == name {
                front.push(Source::Value(value))
            } else {
                front
            },
            _ => front,
        }
    }
}

/// Where the columns of an edited row come from.
pub open spec fn edited_row(names: Seq<Seq<char>>, edits: Seq<EditView>) -> Seq<Source>
    decreases names.len(),
{
    if names.len() == 0 {
        Seq::empty()
    } else {
        edited_row(names.drop_last(), edits) + edited_field(names.last(), edits) + inserted_after(
            names.last(),
            edits,
        )
    }
}

/// The fields of the metadata of an added file that every engine reports.
pub open spec fn mandatory_add_file_fields() -> Seq<FieldView> {
    seq![
        schema::plain_field("path"@, schema::primitive(PrimitiveType::String), false),
        schema::plain_field("partitionValues"@, schema::string_map_type(true), false),
        schema::plain_field("size"@, schema::primitive(PrimitiveType::Long), false),
        schema::plain_field("modificationTime"@, schema::primitive(PrimitiveType::Long), false),
    ]
}

/// The schema of the metadata of an added file that every engine reports.
pub fn mandatory_add_file_schema() -> (r: StructType)
    ensures
        r@ == mandatory_add_file_fields(),
{
    let r = StructType {
        fields: vec![
            StructField::not_null("path", DataType::string()),
            StructField::not_null(
                "partitionValues",
                DataType::mapping(DataType::string(), DataType::string(), true),
            ),
            StructField::not_null("size", DataType::long()),
            StructField::not_null("modificationTime", DataType::long()),
        ],
    };
    assert(r@ =~= mandatory_add_file_fields());
    r
}

/// The fields of the statistics on an added file. What is inside the structs depends on the table.
pub open spec fn base_stats_fields() -> Seq<FieldView> {
    seq![
        schema::plain_field("numRecords"@, schema::primitive(PrimitiveType::Long), true),
        schema::plain_field("nullCount"@, DataTypeView::Struct(Seq::empty()), true),
        schema::plain_field("minValues"@, DataTypeView::Struct(Seq::empty()), true),
        schema::plain_field("maxValues"@, DataTypeView::Struct(Seq::empty()), true),
        schema::plain_field("tightBounds"@, schema::primitive(PrimitiveType::Boolean), true),
    ]
}

/// The fields of the metadata of an added file.
pub open spec fn base_add_files_fields() -> Seq<FieldView> {
    mandatory_add_file_fields().push(
        schema::plain_field("stats"@, DataTypeView::Struct(base_stats_fields()), true),
    )
}

fn empty_struct() -> (r: DataType)
    ensures
        r@ == DataTypeView::Struct(Seq::empty()),
{
    let s = StructType { fields: Vec::new() };
    assert(s@ =~= Seq::<FieldView>::empty());
    DataType::struct_of(s)
}

/// The schema of the metadata of an added file.
pub fn base_add_files_schema() -> (r: StructType)
    ensures
        r@ == base_add_files_fields(),
{
    let stats = StructType {
        fields: vec![
            StructField::nullable("numRecords", DataType::long()),
            StructField::nullable("nullCount", empty_struct()),
            StructField::nullable("minValues", empty_struct()),
            StructField::nullable("maxValues", empty_struct()),
            StructField::nullable("tightBounds", DataType::boolean()),
        ],
    };
    assert(stats@ =~= base_stats_fields());
    let mut r = mandatory_add_file_schema();
    r.fields.push(StructField::nullable("stats", DataType::struct_of(stats)));
    assert(r@ =~= base_add_files_fields());
    r
}

/// The fields of an added file with the column that says whether the data changes.
pub open spec fn add_files_fields_with_data_change() -> Seq<FieldView> {
    mandatory_add_file_fields().push(
        schema::plain_field("dataChange"@, schema::primitive(PrimitiveType::Boolean), false),
    ).push(schema::plain_field("stats"@, DataTypeView::Struct(base_stats_fields()), true))
}

/// The fields with the statistics as text. They take the place of statistics that are there.
pub open spec fn with_stats_text(s: Seq<FieldView>) -> Seq<FieldView> {
    schema::with_field(s, schema::plain_field("stats"@, schema::primitive(PrimitiveType::String), true))
}

/// The fields with those for row tracking.
pub open spec fn with_row_tracking(s: Seq<FieldView>) -> Seq<FieldView> {
    schema::with_field(
        schema::with_field(s, schema::plain_field("baseRowId"@, schema::primitive(PrimitiveType::Long), true)),
        schema::plain_field("defaultRowCommitVersion"@, schema::primitive(PrimitiveType::Long), true),
    )
}

/// Puts a field in the place of the field of its name, or at the end.
fn set_field(schema: &mut StructType, field: StructField)
    ensures
        final(schema)@ == schema::with_field(old(schema)@, field@),
{
    let ghost before = schema@;
    let ghost f = field@;
    match position_of(&schema.fields, field.name.as_str()) {
        Some(i) => {
            schema.fields[i] = field;
            assert(schema@ =~= before.update(i as int, f));
        },
        None => {
            schema.fields.push(field);
            assert(schema@ =~= before.push(f));
        },
    }
}

/// The schema with the statistics as text.
pub fn with_stats_col(schema: StructType) -> (r: StructType)
    ensures
        r@ == with_stats_text(schema@),
{
    let mut r = schema;
    set_field(&mut r, StructField::nullable("stats", DataType::string()));
    r
}

/// The schema with the columns for row tracking.
pub fn with_row_tracking_cols(schema: StructType) -> (r: StructType)
    ensures
        r@ == with_row_tracking(schema@),
{
    let mut r = schema;
    set_field(&mut r, StructField::nullable("baseRowId", DataType::long()));
    set_field(&mut r, StructField::nullable("defaultRowCommitVersion", DataType::long()));
    r
}

/// The schema of an added file with the column that says whether the data changes.
fn add_files_schema_with_data_change() -> (r: StructType)
    ensures
        r@ == add_files_fields_with_data_change(),
{
    let mut r = base_add_files_schema();
    let ghost before = r@;
    assert(before.len() == r.fields@.len());
    let column = StructField::not_null("dataChange", DataType::boolean());
    let ghost fields = r.fields@;
    r.fields.insert(4, column);
    assert(r.fields@ == fields.insert(4, column));
    assert(r@ =~= before.insert(4, column@));
    assert(r@ =~= add_files_fields_with_data_change());
    r
}

/// The edits that make an add action of the metadata of an added file.
pub open spec fn add_edits(data_change: bool) -> Seq<EditView> {
    seq![
        EditView::InsertAfter {
            field: "modificationTime"@,
            value: ExpressionView::Literal(ScalarView::Boolean(data_change)),
        },
        EditView::Replace { field: "stats"@, value: ExpressionView::ToJson(seq!["stats"@]) },
    ]
}

/// The fields of the add actions that are made of added files.
pub open spec fn add_output_fields(row_tracking: bool) -> Seq<FieldView> {
    let output = with_stats_text(add_files_fields_with_data_change());
    if row_tracking {
        with_row_tracking(output)
    } else {
        output
    }
}

/// How the metadata of added files become add actions.
pub open spec fn add_evaluation_of(data_change: bool, row_tracking: bool) -> EvaluationView {
    EvaluationView {
        input: if row_tracking {
            with_row_tracking(base_add_files_fields())
        } else {
            base_add_files_fields()
        },
        expression: RowExpressionView::Nested(add_edits(data_change)),
        output: seq![action_schemas::action_field(ADD_NAME@, add_output_fields(row_tracking))],
    }
}

/// How the metadata of added files become add actions: the statistics become text, and whether the
/// data changes is filled in.
pub fn add_evaluation(data_change: bool, row_tracking: bool) -> (r: Evaluation)
    ensures
        r@ == add_evaluation_of(data_change, row_tracking),
{
    let stats = ColumnName::new(["stats"]);
    assert(stats@ =~= seq!["stats"@]);
    let edits = vec![
        FieldEdit::insert_after(
            "modificationTime",
            Expression::Literal(Scalar::Boolean(data_change)),
        ),
        FieldEdit::replace("stats", Expression::ToJson(stats)),
    ];
    assert(edits_view(edits@) =~= add_edits(data_change));
    let base = base_add_files_schema();
    let output = with_stats_col(add_files_schema_with_data_change());
    let (input_schema, output) = if row_tracking {
        (with_row_tracking_cols(base), with_row_tracking_cols(output))
    } else {
        (base, output)
    };
    Evaluation {
        input_schema,
        expression: RowExpression::Nested(edits),
        output_schema: as_log_add_schema(output),
    }
}

/// The fields of a row that a scan reports of a file.
pub open spec fn scan_row_fields() -> Seq<FieldView> {
    seq![
        schema::plain_field("path"@, schema::primitive(PrimitiveType::String), true),
        schema::plain_field("size"@, schema::primitive(PrimitiveType::Long), true),
        schema::plain_field("modificationTime"@, schema::primitive(PrimitiveType::Long), true),
        schema::plain_field("stats"@, schema::primitive(PrimitiveType::String), true),
        schema::plain_field("deletionVector"@, DataTypeView::Struct(action_schemas::deletion_vector_fields()), true),
        schema::plain_field(
            FILE_CONSTANT_VALUES_NAME@,
            DataTypeView::Struct(file_constant_fields()),
            true,
        ),
    ]
}

/// The fields that are the same for all rows of a file.
pub open spec fn file_constant_fields() -> Seq<FieldView> {
    seq![
        schema::plain_field("partitionValues"@, schema::string_map_type(true), true),
        schema::plain_field(BASE_ROW_ID_NAME@, schema::primitive(PrimitiveType::Long), true),
        schema::plain_field(DEFAULT_ROW_COMMIT_VERSION_NAME@, schema::primitive(PrimitiveType::Long), true),
        schema::plain_field(TAGS_NAME@, schema::string_map_type(true), true),
        schema::plain_field(CLUSTERING_PROVIDER_NAME@, schema::primitive(PrimitiveType::String), true),
    ]
}

fn string_map(value_contains_null: bool) -> (r: DataType)
    ensures
        r@ == schema::string_map_type(value_contains_null),
{
    DataType::mapping(DataType::string(), DataType::string(), value_contains_null)
}

/// The schema of a row that a scan reports of a file.
pub fn scan_row_schema() -> (r: StructType)
    ensures
        r@ == scan_row_fields(),
{
    let constants = StructType {
        fields: vec![
            StructField::nullable("partitionValues", string_map(true)),
            StructField::nullable(BASE_ROW_ID_NAME, DataType::long()),
            StructField::nullable(DEFAULT_ROW_COMMIT_VERSION_NAME, DataType::long()),
            StructField::nullable(TAGS_NAME, string_map(true)),
            StructField::nullable(CLUSTERING_PROVIDER_NAME, DataType::string()),
        ],
    };
    assert(constants@ =~= file_constant_fields());
    let r = StructType {
        fields: vec![
            StructField::nullable("path", DataType::string()),
            StructField::nullable("size", DataType::long()),
            StructField::nullable("modificationTime", DataType::long()),
            StructField::nullable("stats", DataType::string()),
            StructField::nullable(
                "deletionVector",
                DataType::struct_of(DeletionVectorDescriptor::to_schema()),
            ),
            StructField::nullable(FILE_CONSTANT_VALUES_NAME, DataType::struct_of(constants)),
        ],
    };
    assert(r@ =~= scan_row_fields());
    r
}

/// The path to a value that is the same for all rows of a file.
pub open spec fn constant_path(name: Seq<char>) -> Seq<Seq<char>> {
    seq![FILE_CONSTANT_VALUES_NAME@, name]
}

/// A value that is the same for all rows of a file.
fn constant_column(name: &str) -> (r: Expression)
    ensures
        r@ == ExpressionView::Column(constant_path(name@)),
{
    let c = ColumnName::new([FILE_CONSTANT_VALUES_NAME, name]);
    assert(c@ =~= constant_path(name@));
    Expression::Column(c)
}

/// A column at the top level.
fn top_column(name: &str) -> (r: Expression)
    ensures
        r@ == ExpressionView::Column(seq![name@]),
{
    let c = ColumnName::new([name]);
    assert(c@ =~= seq![name@]);
    Expression::Column(c)
}

/// The edits that make a remove action of a row of a scan.
pub open spec fn remove_edits(timestamp: i64, data_change: bool) -> Seq<EditView> {
    seq![
        EditView::InsertAfter {
            field: "path"@,
            value: ExpressionView::Literal(ScalarView::Long(timestamp)),
        },
        EditView::InsertAfter {
            field: "path"@,
            value: ExpressionView::Literal(ScalarView::Boolean(data_change)),
        },
        EditView::InsertAfter {
            field: "path"@,
            value: ExpressionView::Literal(ScalarView::Boolean(true)),
        },
        EditView::InsertAfter {
            field: "path"@,
            value: ExpressionView::Column(constant_path("partitionValues"@)),
        },
        EditView::InsertAfter {
            field: "stats"@,
            value: ExpressionView::Column(constant_path(TAGS_NAME@)),
        },
        EditView::InsertAfter {
            field: "deletionVector"@,
            value: ExpressionView::Column(constant_path(BASE_ROW_ID_NAME@)),
        },
        EditView::InsertAfter {
            field: "deletionVector"@,
            value: ExpressionView::Column(constant_path(DEFAULT_ROW_COMMIT_VERSION_NAME@)),
        },
        EditView::Drop { field: FILE_CONSTANT_VALUES_NAME@ },
        EditView::Drop { field: "modificationTime"@ },
    ]
}

/// How rows of a scan become remove actions. A column that holds new deletion vectors is left out.
pub open spec fn remove_evaluation_of(
    timestamp: i64,
    data_change: bool,
    drop_new_vectors: bool,
) -> EvaluationView {
    let edits = remove_edits(timestamp, data_change);
    EvaluationView {
        input: scan_row_fields(),
        expression: RowExpressionView::Nested(
            if drop_new_vectors {
                edits.push(EditView::Drop { field: NEW_DELETION_VECTOR_NAME@ })
            } else {
                edits
            },
        ),
        output: schema_transform::nullable_fields(action_schemas::log_remove_fields()),
    }
}

/// How rows of a scan become remove actions: when the files were removed and whether the data
/// changes is filled in, and what is the same for all rows of a file moves to its place.
pub fn remove_evaluation(timestamp: i64, data_change: bool, drop_new_vectors: bool) -> (r:
    Evaluation)
    ensures
        r@ == remove_evaluation_of(timestamp, data_change, drop_new_vectors),
{
    let mut edits = vec![
        FieldEdit::insert_after("path", Expression::Literal(Scalar::Long(timestamp))),
        FieldEdit::insert_after("path", Expression::Literal(Scalar::Boolean(data_change))),
        FieldEdit::insert_after("path", Expression::Literal(Scalar::Boolean(true))),
        FieldEdit::insert_after("path", constant_column("partitionValues")),
        FieldEdit::insert_after("stats", constant_column(TAGS_NAME)),
        FieldEdit::insert_after("deletionVector", constant_column(BASE_ROW_ID_NAME)),
        FieldEdit::insert_after("deletionVector", constant_column(DEFAULT_ROW_COMMIT_VERSION_NAME)),
        FieldEdit::drop_field(FILE_CONSTANT_VALUES_NAME),
        FieldEdit::drop_field("modificationTime"),
    ];
    assert(edits_view(edits@) =~= remove_edits(timestamp, data_change));
    if drop_new_vectors {
        edits.push(FieldEdit::drop_field(NEW_DELETION_VECTOR_NAME));
        assert(edits_view(edits@) =~= remove_edits(timestamp, data_change).push(
            EditView::Drop { field: NEW_DELETION_VECTOR_NAME@ },
        ));
    }
    let target = get_log_remove_schema();
    Evaluation {
        input_schema: scan_row_schema(),
        expression: RowExpression::Nested(edits),
        output_schema: make_nullable(&target),
    }
}

/// The fields of a scan row with a column for a new deletion vector.
pub open spec fn intermediate_dv_fields() -> Seq<FieldView> {
    scan_row_fields().push(
        schema::plain_field(
            NEW_DELETION_VECTOR_NAME@,
            DataTypeView::Struct(action_schemas::deletion_vector_fields()),
            true,
        ),
    )
}

/// The schema of a scan row with a column for a new deletion vector.
pub fn intermediate_dv_schema() -> (r: StructType)
    ensures
        r@ == intermediate_dv_fields(),
{
    let mut r = scan_row_schema();
    r.fields.push(
        StructField::nullable(
            NEW_DELETION_VECTOR_NAME,
            DataType::struct_of(DeletionVectorDescriptor::to_schema()),
        ),
    );
    assert(r@ =~= intermediate_dv_fields());
    r
}

/// The schema of the column for a new deletion vector.
pub fn new_dv_column_schema() -> (r: StructType)
    ensures
        r@ == seq![
            schema::plain_field(
                NEW_DELETION_VECTOR_NAME@,
                DataTypeView::Struct(action_schemas::deletion_vector_fields()),
                true,
            ),
        ],
{
    let r = StructType {
        fields: vec![
            StructField::nullable(
                NEW_DELETION_VECTOR_NAME,
                DataType::struct_of(DeletionVectorDescriptor::to_schema()),
            ),
        ],
    };
    assert(r@ =~= seq![
        schema::plain_field(
            NEW_DELETION_VECTOR_NAME@,
            DataTypeView::Struct(action_schemas::deletion_vector_fields()),
            true,
        ),
    ]);
    r
}

/// The type of a list of deletion vectors, in which some may be null.
pub fn struct_deletion_vector_schema() -> (r: DataType)
    ensures
        r@ == DataTypeView::Array(Box::new(DataTypeView::Struct(action_schemas::deletion_vector_fields())), true),
{
    DataType::array(DataType::struct_of(DeletionVectorDescriptor::to_schema()), true)
}

/// The schema of a scan row in which everything may be null.
pub fn nullable_scan_rows_schema() -> (r: StructType)
    ensures
        r@ == schema_transform::nullable_fields(scan_row_fields()),
{
    let s = scan_row_schema();
    make_nullable(&s)
}

/// The fields of an add action as far as a scan reports them.
pub open spec fn restored_add_fields() -> Seq<FieldView> {
    seq![
        schema::plain_field("path"@, schema::primitive(PrimitiveType::String), false),
        schema::plain_field("partitionValues"@, schema::string_map_type(true), false),
        schema::plain_field("size"@, schema::primitive(PrimitiveType::Long), false),
        schema::plain_field("modificationTime"@, schema::primitive(PrimitiveType::Long), true),
        schema::plain_field("stats"@, schema::primitive(PrimitiveType::String), true),
        schema::plain_field(TAGS_NAME@, schema::string_map_type(true), true),
        schema::plain_field("deletionVector"@, DataTypeView::Struct(action_schemas::deletion_vector_fields()), true),
        schema::plain_field(BASE_ROW_ID_NAME@, schema::primitive(PrimitiveType::Long), true),
        schema::plain_field(DEFAULT_ROW_COMMIT_VERSION_NAME@, schema::primitive(PrimitiveType::Long), true),
        schema::plain_field(CLUSTERING_PROVIDER_NAME@, schema::primitive(PrimitiveType::String), true),
    ]
}

/// The schema of a log row with an add action as far as a scan reports it.
pub fn restored_add_schema() -> (r: StructType)
    ensures
        r@ == seq![action_schemas::action_field(ADD_NAME@, restored_add_fields())],
{
    let inner = StructType {
        fields: vec![
            StructField::not_null("path", DataType::string()),
            StructField::not_null("partitionValues", string_map(true)),
            StructField::not_null("size", DataType::long()),
            StructField::nullable("modificationTime", DataType::long()),
            StructField::nullable("stats", DataType::string()),
            StructField::nullable(TAGS_NAME, string_map(true)),
            StructField::nullable(
                "deletionVector",
                DataType::struct_of(DeletionVectorDescriptor::to_schema()),
            ),
            StructField::nullable(BASE_ROW_ID_NAME, DataType::long()),
            StructField::nullable(DEFAULT_ROW_COMMIT_VERSION_NAME, DataType::long()),
            StructField::nullable(CLUSTERING_PROVIDER_NAME, DataType::string()),
        ],
    };
    assert(inner@ =~= restored_add_fields());
    as_log_add_schema(inner)
}

/// The fields of a restored add action in which everything may be null.
pub open spec fn nullable_restored_fields() -> Seq<FieldView> {
    schema_transform::nullable_fields(seq![action_schemas::action_field(ADD_NAME@, restored_add_fields())])
}

/// The schema of a restored add action in which everything may be null.
pub fn nullable_restored_add_schema() -> (r: StructType)
    ensures
        r@ == nullable_restored_fields(),
{
    let s = restored_add_schema();
    make_nullable(&s)
}

/// The schema of an add action in which everything may be null.
pub fn nullable_add_log_schema() -> (r: StructType)
    ensures
        r@ == schema_transform::nullable_fields(action_schemas::log_add_fields()),
{
    let s = get_log_add_schema();
    make_nullable(&s)
}

/// The values of an add action that a scan row holds.
pub open spec fn restored_values() -> Seq<ExpressionView> {
    seq![
        ExpressionView::Column(seq!["path"@]),
        ExpressionView::Column(constant_path("partitionValues"@)),
        ExpressionView::Column(seq!["size"@]),
        ExpressionView::Column(seq!["modificationTime"@]),
        ExpressionView::Column(seq!["stats"@]),
        ExpressionView::Column(constant_path(TAGS_NAME@)),
        ExpressionView::Column(seq!["deletionVector"@]),
        ExpressionView::Column(constant_path(BASE_ROW_ID_NAME@)),
        ExpressionView::Column(constant_path(DEFAULT_ROW_COMMIT_VERSION_NAME@)),
        ExpressionView::Column(constant_path(CLUSTERING_PROVIDER_NAME@)),
    ]
}

/// The edits that put a new deletion vector in its place.
pub open spec fn new_dv_edits() -> Seq<EditView> {
    seq![
        EditView::Replace {
            field: "deletionVector"@,
            value: ExpressionView::Column(seq![NEW_DELETION_VECTOR_NAME@]),
        },
        EditView::Drop { field: NEW_DELETION_VECTOR_NAME@ },
    ]
}

/// How a scan row with a new deletion vector becomes a scan row with that vector.
pub open spec fn new_dv_evaluation_of() -> EvaluationView {
    EvaluationView {
        input: intermediate_dv_fields(),
        expression: RowExpressionView::Edited(new_dv_edits()),
        output: schema_transform::nullable_fields(scan_row_fields()),
    }
}

/// How a scan row becomes an add action, but for the column that says whether the data changes.
pub open spec fn restored_add_evaluation_of() -> EvaluationView {
    EvaluationView {
        input: schema_transform::nullable_fields(scan_row_fields()),
        expression: RowExpressionView::NestedValues(restored_values()),
        output: nullable_restored_fields(),
    }
}

/// How the column that says whether the data changes is filled in.
pub open spec fn data_change_evaluation_of(data_change: bool) -> EvaluationView {
    EvaluationView {
        input: nullable_restored_fields(),
        expression: RowExpressionView::NestedIn(
            seq![ADD_NAME@],
            seq![
                EditView::InsertAfter {
                    field: "modificationTime"@,
                    value: ExpressionView::Literal(ScalarView::Boolean(data_change)),
                },
            ],
        ),
        output: schema_transform::nullable_fields(action_schemas::log_add_fields()),
    }
}

/// How a scan row with a new deletion vector becomes a scan row with that vector.
pub fn new_dv_evaluation() -> (r: Evaluation)
    ensures
        r@ == new_dv_evaluation_of(),
{
    let edits = vec![
        FieldEdit::replace("deletionVector", top_column(NEW_DELETION_VECTOR_NAME)),
        FieldEdit::drop_field(NEW_DELETION_VECTOR_NAME),
    ];
    assert(edits_view(edits@) =~= new_dv_edits());
    Evaluation {
        input_schema: intermediate_dv_schema(),
        expression: RowExpression::Edited(edits),
        output_schema: nullable_scan_rows_schema(),
    }
}

/// How a scan row becomes an add action, but for the column that says whether the data changes.
pub fn restored_add_evaluation() -> (r: Evaluation)
    ensures
        r@ == restored_add_evaluation_of(),
{
    let values = vec![
        top_column("path"),
        constant_column("partitionValues"),
        top_column("size"),
        top_column("modificationTime"),
        top_column("stats"),
        constant_column(TAGS_NAME),
        top_column("deletionVector"),
        constant_column(BASE_ROW_ID_NAME),
        constant_column(DEFAULT_ROW_COMMIT_VERSION_NAME),
        constant_column(CLUSTERING_PROVIDER_NAME),
    ];
    assert(expressions_view(values@) =~= restored_values());
    Evaluation {
        input_schema: nullable_scan_rows_schema(),
        expression: RowExpression::NestedValues(values),
        output_schema: nullable_restored_add_schema(),
    }
}

/// How the column that says whether the data changes is filled in.
pub fn data_change_evaluation(data_change: bool) -> (r: Evaluation)
    ensures
        r@ == data_change_evaluation_of(data_change),
{
    let add = ColumnName::new([ADD_NAME]);
    assert(add@ =~= seq![ADD_NAME@]);
    let edits = vec![
        FieldEdit::insert_after(
            "modificationTime",
            Expression::Literal(Scalar::Boolean(data_change)),
        ),
    ];
    assert(edits_view(edits@) =~= seq![
        EditView::InsertAfter {
            field: "modificationTime"@,
            value: ExpressionView::Literal(ScalarView::Boolean(data_change)),
        },
    ]);
    Evaluation {
        input_schema: nullable_restored_add_schema(),
        expression: RowExpression::NestedIn(add, edits),
        output_schema: nullable_add_log_schema(),
    }
}

} // verus!
