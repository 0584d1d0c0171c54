//! What an engine adds to the commit info of a commit.
use vstd::prelude::*;

use crate::action_schemas::{self, COMMIT_INFO_NAME};
use crate::actions::{self, CommitInfo, CommitInfoView};
use crate::evaluation::{
    self, Evaluation, EvaluationView, Expression, ExpressionView, RowExpression, RowExpressionView,
};
use crate::expressions::ColumnName;
use crate::scalars::{self, ScalarView};
use crate::schema::{self, DataType, FieldView, StructField, StructType};

verus! {

/// The fields that an engine adds to the commit info: those whose names are not taken by the library.
pub open spec fn engine_fields(s: Seq<FieldView>) -> Seq<FieldView>
    decreases s.len(),
{
    if s.len() == 0 {
        Seq::empty()
    } else if schema::find_field(action_schemas::commit_info_fields(), s.last().name) is Some {
        engine_fields(s.drop_last())
    } else {
        engine_fields(s.drop_last()).push(s.last())
    }
}

/// The values as literals.
pub open spec fn literals(s: Seq<ScalarView>) -> Seq<ExpressionView> {
    Seq::new(s.len(), |i: int| ExpressionView::Literal(s[i]))
}

/// The columns of the names of fields.
pub open spec fn engine_columns(s: Seq<FieldView>) -> Seq<ExpressionView> {
    Seq::new(s.len(), |i: int| ExpressionView::Column(seq![s[i].name]))
}

/// How the commit info and what an engine adds to it become one action: the fields of the library
/// with its values, then the other fields of the engine.
pub open spec fn commit_info_evaluation_of(
    info: CommitInfoView,
    keys: Seq<Seq<char>>,
    engine: Seq<FieldView>,
) -> EvaluationView {
    EvaluationView {
        input: engine,
        expression: RowExpressionView::NestedValues(
            literals(actions::commit_info_row(info, keys)) + engine_columns(engine_fields(engine)),
        ),
        output: seq![action_schemas::action_field(COMMIT_INFO_NAME@, action_schemas::commit_info_fields() + engine_fields(engine))],
    }
}

/// What an engine adds stands in the commit info unless the library sets a field of that name: the
/// fields of the library have its values, every other field of the engine has the value that the
/// engine gave it, and no name comes twice.
pub proof fn engine_fields_give_way(
    info: CommitInfoView,
    keys: Seq<Seq<char>>,
    engine: Seq<FieldView>,
)
    requires
        schema::field_names(engine).no_duplicates(),
    ensures
        ({
            let fields = action_schemas::commit_info_fields() + engine_fields(engine);
            let values = literals(actions::commit_info_row(info, keys)) + engine_columns(engine_fields(engine));
            &&& fields.len() == values.len()
            &&& schema::field_names(fields).no_duplicates()
            &&& forall|i: int|
                0 <= i < action_schemas::commit_info_fields().len() ==> #[trigger] fields[i] == action_schemas::commit_info_fields()[i]
                    && values[i] == ExpressionView::Literal(actions::commit_info_row(info, keys)[i])
            &&& forall|i: int|
                action_schemas::commit_info_fields().len() <= i < fields.len() ==> engine.contains(#[trigger] fields[i])
                    && values[i] == ExpressionView::Column(seq![fields[i].name])
            &&& forall|i: int|
                0 <= i < engine.len() ==> schema::field_names(fields).contains((#[trigger] engine[i]).name)
        }),
{
    let kept = engine_fields(engine);
    let own = action_schemas::commit_info_fields();
    let fields = own + kept;
    lemma_own_names();
    lemma_engine_fields(engine);
    assert(schema::field_names(fields).no_duplicates()) by {
        assert forall|i: int, j: int| 0 <= i < j < fields.len() implies schema::field_names(fields)[i]
            != schema::field_names(fields)[j] by {
            if j < own.len() {
                assert(schema::field_names(own)[i] != schema::field_names(own)[j]);
            } else if i >= own.len() {
                assert(schema::field_names(kept)[i - own.len()] != schema::field_names(kept)[j - own.len()]);
            } else {
                assert(schema::find_field(own, kept[j - own.len()].name) is None);
                schema::lemma_field_position(own, kept[j - own.len()].name);
            }
        }
    }
    assert forall|i: int| own.len() <= i < fields.len() implies engine.contains(
        #[trigger] fields[i],
    ) by {
        assert(fields[i] == kept[i - own.len()]);
    }
    assert forall|i: int| 0 <= i < engine.len() implies schema::field_names(fields).contains(
        (#[trigger] engine[i]).name,
    ) by {
        let name = engine[i].name;
        schema::lemma_field_position(own, name);
        if let Some(j) = schema::field_position(own, name) {
            assert(schema::field_names(fields)[j] == name);
        } else {
            assert(kept.contains(engine[i]));
            let j = choose|j: int| 0 <= j < kept.len() && kept[j] == engine[i];
            assert(schema::field_names(fields)[own.len() + j] == name);
        }
    }
}

/// The names of the library's own fields are distinct.
proof fn lemma_own_names()
    ensures
        schema::field_names(action_schemas::commit_info_fields()).no_duplicates(),
{
    reveal_strlit("timestamp");
    reveal_strlit("inCommitTimestamp");
    reveal_strlit("operation");
    reveal_strlit("operationParameters");
    reveal_strlit("kernelVersion");
    reveal_strlit("isBlindAppend");
    reveal_strlit("engineInfo");
    reveal_strlit("txnId");
    let n = schema::field_names(action_schemas::commit_info_fields());
    assert(n[0].len() == 9 && n[1].len() == 17 && n[2].len() == 9 && n[3].len() == 19);
    assert(n[4].len() == 13 && n[5].len() == 13 && n[6].len() == 10 && n[7].len() == 5);
    assert(n[0][0] == 't' && n[2][0] == 'o' && n[4][0] == 'k' && n[5][0] == 'i');
}

/// The fields that an engine adds are fields of the engine with other names than the library's own,
/// all of them, each once where they were distinct.
proof fn lemma_engine_fields(s: Seq<FieldView>)
    ensures
        forall|i: int|
            0 <= i < engine_fields(s).len() ==> s.contains(#[trigger] engine_fields(s)[i]) && schema::find_field(
                action_schemas::commit_info_fields(),
                engine_fields(s)[i].name,
            ) is None,
        forall|i: int|
            0 <= i < s.len() && schema::find_field(action_schemas::commit_info_fields(), (#[trigger] s[i]).name) is None
                ==> engine_fields(s).contains(s[i]),
        schema::field_names(s).no_duplicates() ==> schema::field_names(engine_fields(s)).no_duplicates(),
    decreases s.len(),
{
    if s.len() > 0 {
        let front = s.drop_last();
        let before = engine_fields(front);
        let after = engine_fields(s);
        lemma_engine_fields(front);
        assert forall|i: int| 0 <= i < after.len() implies s.contains(#[trigger] after[i])
            && schema::find_field(action_schemas::commit_info_fields(), after[i].name) is None by {
            if i < before.len() {
                assert(after[i] == before[i]);
                let j = choose|j: int| 0 <= j < front.len() && front[j] == before[i];
                assert(s[j] == after[i]);
            } else {
                assert(s[s.len() - 1] == after[i]);
            }
        }
        assert forall|i: int|
            0 <= i < s.len() && schema::find_field(action_schemas::commit_info_fields(), (#[trigger] s[i]).name)
                is None implies after.contains(s[i]) by {
            if i < front.len() {
                assert(front[i] == s[i]);
                let j = choose|j: int| 0 <= j < before.len() && before[j] == front[i];
                assert(after[j] == s[i]);
            } else {
                assert(after[after.len() - 1] == s[i]);
            }
        }
        if schema::field_names(s).no_duplicates() {
            assert forall|i: int, j: int| 0 <= i < j < front.len() implies schema::field_names(front)[i]
                != schema::field_names(front)[j] by {
                assert(schema::field_names(s)[i] != schema::field_names(s)[j]);
            }
            assert forall|i: int, j: int| 0 <= i < j < after.len() implies schema::field_names(after)[i]
                != schema::field_names(after)[j] by {
                if j < before.len() {
                    assert(schema::field_names(before)[i] != schema::field_names(before)[j]);
                } else {
                    let k = choose|k: int| 0 <= k < front.len() && front[k] == before[i];
                    assert(schema::field_names(s)[k] != schema::field_names(s)[s.len() - 1]);
                }
            }
        }
    }
}

/// The fields that an engine adds to the commit info, and the columns that they come from.
fn added_by_engine(engine_schema: &StructType) -> (r: (Vec<StructField>, Vec<Expression>))
    ensures
        schema::fields_view(r.0@) == engine_fields(engine_schema@),
        evaluation::expressions_view(r.1@) == engine_columns(engine_fields(engine_schema@)),
{
    let own = CommitInfo::to_schema();
    let all = &engine_schema.fields;
    let ghost s = engine_schema@;
    let mut fields: Vec<StructField> = Vec::new();
    let mut columns: Vec<Expression> = Vec::new();
    let mut i: usize = 0;
    assert(schema::fields_view(fields@) =~= engine_fields(s.take(0)));
    assert(evaluation::expressions_view(columns@) =~= engine_columns(engine_fields(s.take(0))));
    while i < all.len()
        invariant
            i <= all@.len(),
            s == schema::fields_view(all@),
            own@ == action_schemas::commit_info_fields(),
            schema::fields_view(fields@) == engine_fields(s.take(i as int)),
            evaluation::expressions_view(columns@) == engine_columns(engine_fields(s.take(i as int))),
        decreases all.len() - i,
    {
        let ghost before = schema::fields_view(fields@);
        let ghost columns_before = evaluation::expressions_view(columns@);
        assert(s.take(i + 1).drop_last() =~= s.take(i as int));
        assert(s.take(i + 1).last() == s[i as int]);
        if !own.contains(all[i].name.as_str()) {
            let column = ColumnName::new([all[i].name.as_str()]);
            assert(column@ =~= seq![s[i as int].name]);
            let field = all[i].clone();
            fields.push(field);
            columns.push(Expression::Column(column));
            assert(schema::fields_view(fields@) =~= before.push(s[i as int]));
            assert(evaluation::expressions_view(columns@) =~= columns_before.push(
                ExpressionView::Column(seq![s[i as int].name]),
            ));
            assert(evaluation::expressions_view(columns@) =~= engine_columns(engine_fields(s.take(i + 1))));
        }
        i += 1;
    }
    assert(s.take(i as int) =~= s);
    (fields, columns)
}

/// How the commit info and what an engine adds to it become one action, given the schema of what
/// the engine adds.
pub fn commit_info_evaluation(info: &CommitInfo, engine_schema: &StructType) -> (r: Evaluation)
    ensures
        r@ == commit_info_evaluation_of(info@, info.parameter_keys(), engine_schema@),
{
    let (added, columns) = added_by_engine(engine_schema);
    let mut fields: Vec<StructField> = CommitInfo::to_schema().fields;
    let ghost own = schema::fields_view(fields@);
    let ghost more = schema::fields_view(added@);
    let mut added = added;
    fields.append(&mut added);
    assert(schema::fields_view(fields@) =~= own + more);
    let row = info.row_values();
    let ghost row_view = scalars::scalars_view(row@);
    let mut values: Vec<Expression> = Vec::new();
    for scalar in it: row
        invariant
            it.seq() == row@,
            values@.len() == it.index(),
            forall|j: int|
                0 <= j < values@.len() ==> (#[trigger] values@[j])@ == ExpressionView::Literal(
                    scalars::scalars_view(row@)[j],
                ),
    {
        values.push(Expression::Literal(scalar));
    }
    assert(evaluation::expressions_view(values@) =~= literals(row_view));
    let ghost before = evaluation::expressions_view(values@);
    let ghost more_columns = evaluation::expressions_view(columns@);
    let mut columns = columns;
    values.append(&mut columns);
    assert(evaluation::expressions_view(values@) =~= before + more_columns);
    let output_schema = StructType {
        fields: vec![
            StructField::nullable(COMMIT_INFO_NAME, DataType::struct_of(StructType { fields })),
        ],
    };
    assert(output_schema@ =~= seq![
        action_schemas::action_field(COMMIT_INFO_NAME@, action_schemas::commit_info_fields() + engine_fields(engine_schema@)),
    ]);
    Evaluation {
        input_schema: engine_schema.clone(),
        expression: RowExpression::NestedValues(values),
        output_schema,
    }
}

} // verus!
