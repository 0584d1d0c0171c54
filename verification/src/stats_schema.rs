//! Which statistics are kept on the data of files, and their schema.
use vstd::prelude::*;

use crate::expressions::{self, clone_columns, contains_column, ColumnName};
use crate::schema::{
    self, DataType, DataTypeView, FieldView, PrimitiveType, StructField, StructType,
};
use crate::table_properties::DataSkippingNumIndexedCols;
use crate::text::{self, clone_texts};

verus! {

/// How many leaf columns have statistics where nothing else is said.
pub const DEFAULT_NUM_INDEXED_COLS: u64 = 32;

/// Which columns have statistics.
pub struct StatsConfig<'a> {
    /// The columns that have statistics, where they are listed.
    pub data_skipping_stats_columns: Option<&'a Vec<ColumnName>>,
    /// How many of the first leaf columns have statistics, where they are not listed.
    pub data_skipping_num_indexed_cols: Option<DataSkippingNumIndexedCols>,
}

/// The mathematical value of a [`StatsConfig`].
pub struct StatsConfigView {
    pub columns: Option<Seq<Seq<Seq<char>>>>,
    pub num_indexed_cols: Option<DataSkippingNumIndexedCols>,
}

/// The names of an optional list of columns.
pub open spec fn opt_columns_ref(c: Option<&Vec<ColumnName>>) -> Option<Seq<Seq<Seq<char>>>> {
    match c {
        Some(c) => Some(expressions::columns_view(c@)),
        None => None,
    }
}

impl<'a> View for StatsConfig<'a> {
    type V = StatsConfigView;

    open spec fn view(&self) -> StatsConfigView {
        StatsConfigView {
            columns: opt_columns_ref(self.data_skipping_stats_columns),
            num_indexed_cols: self.data_skipping_num_indexed_cols,
        }
    }
}

/// The leaf columns of fields in order, each with the path that leads to it. Maps, lists and
/// variants have no leaf columns.
pub open spec fn leaf_columns(s: Seq<FieldView>, prefix: Seq<Seq<char>>) -> Seq<Seq<Seq<char>>>
    decreases s,
{
    if s.len() == 0 {
        Seq::empty()
    } else {
        leaf_columns(s.drop_last(), prefix) + field_leaf_columns(s.last(), prefix)
    }
}

/// The leaf columns of one field.
pub open spec fn field_leaf_columns(f: FieldView, prefix: Seq<Seq<char>>) -> Seq<Seq<Seq<char>>>
    decreases f,
{
    match f.data_type {
        DataTypeView::Struct(inner) => leaf_columns(inner, prefix.push(f.name)),
        DataTypeView::Primitive(_) => seq![prefix.push(f.name)],
        _ => Seq::empty(),
    }
}

/// A leaf column starts with the name of a field of the list that it is in.
pub proof fn lemma_leaf_columns_start(
    s: Seq<FieldView>,
    prefix: Seq<Seq<char>>,
    path: Seq<Seq<char>>,
)
    requires
        leaf_columns(s, prefix).contains(path),
    ensures
        path.len() > prefix.len(),
        path.take(prefix.len() as int) == prefix,
        exists|k: int| 0 <= k < s.len() && (#[trigger] s[k]).name == path[prefix.len() as int],
    decreases s,
{
    let front = leaf_columns(s.drop_last(), prefix);
    let own = field_leaf_columns(s.last(), prefix);
    let all = leaf_columns(s, prefix);
    let i = choose|i: int| 0 <= i < all.len() && all[i] == path;
    if i < front.len() {
        assert(front[i] == path);
        lemma_leaf_columns_start(s.drop_last(), prefix, path);
        let k = choose|k: int|
            0 <= k < s.len() - 1 && (#[trigger] s.drop_last()[k]).name == path[prefix.len() as int];
        assert(s[k].name == path[prefix.len() as int]);
    } else {
        assert(own[i - front.len()] == path);
        let longer = prefix.push(s.last().name);
        match s.last().data_type {
            DataTypeView::Struct(inner) => {
                lemma_leaf_columns_start(inner, longer, path);
                assert(path.take(longer.len() as int).take(prefix.len() as int) =~= path.take(
                    prefix.len() as int,
                ));
                assert(longer.take(prefix.len() as int) =~= prefix);
                assert(path[prefix.len() as int] == path.take(longer.len() as int)[prefix.len() as int]);
            },
            _ => {
                assert(path == longer);
                assert(longer.take(prefix.len() as int) =~= prefix);
            },
        }
        assert(s[s.len() - 1].name == path[prefix.len() as int]);
    }
}

/// Whether a column is one of the listed columns or lies inside one of them.
pub open spec fn under_one_of(list: Seq<Seq<Seq<char>>>, path: Seq<Seq<char>>) -> bool {
    exists|i: int| 0 <= i < list.len() && is_within(#[trigger] list[i], path)
}

/// Whether a column is another one or lies inside it.
pub open spec fn is_within(outer: Seq<Seq<char>>, path: Seq<Seq<char>>) -> bool {
    outer.len() <= path.len() && path.take(outer.len() as int) == outer
}

/// Whether the leaf column at a position has statistics: because it is required, because it is
/// listed, or, where no columns are listed, because it is among the first ones.
pub open spec fn leaf_has_stats(
    position: int,
    path: Seq<Seq<char>>,
    config: StatsConfigView,
    required: Option<Seq<Seq<Seq<char>>>>,
) -> bool {
    ||| required matches Some(r) && under_one_of(r, path)
    ||| match config.columns {
        Some(listed) => under_one_of(listed, path),
        None => match config.num_indexed_cols {
            Some(DataSkippingNumIndexedCols::AllColumns) => true,
            Some(DataSkippingNumIndexedCols::NumColumns(n)) => position < n,
            None => position < DEFAULT_NUM_INDEXED_COLS,
        },
    }
}

/// The leaf columns that have statistics.
pub open spec fn leaves_with_stats(
    leaves: Seq<Seq<Seq<char>>>,
    config: StatsConfigView,
    required: Option<Seq<Seq<Seq<char>>>>,
) -> Seq<Seq<Seq<char>>>
    decreases leaves.len(),
{
    if leaves.len() == 0 {
        Seq::empty()
    } else {
        let front = leaves_with_stats(leaves.drop_last(), config, required);
        if leaf_has_stats(leaves.len() - 1, leaves.last(), config, required) {
            front.push(leaves.last())
        } else {
            front
        }
    }
}

/// The columns of a schema that have statistics.
pub open spec fn stats_columns_of(
    s: Seq<FieldView>,
    config: StatsConfigView,
    required: Option<Seq<Seq<Seq<char>>>>,
) -> Seq<Seq<Seq<char>>> {
    leaves_with_stats(leaf_columns(s, Seq::empty()), config, required)
}

/// Every column that has statistics is a leaf column of the schema, and every required leaf column
/// has statistics.
pub proof fn required_columns_have_stats(
    s: Seq<FieldView>,
    config: StatsConfigView,
    required: Option<Seq<Seq<Seq<char>>>>,
    path: Seq<Seq<char>>,
)
    ensures
        stats_columns_of(s, config, required).contains(path) ==> leaf_columns(
            s,
            Seq::empty(),
        ).contains(path),
        leaf_columns(s, Seq::empty()).contains(path) && required is Some && under_one_of(
            required->0,
            path,
        ) ==> stats_columns_of(s, config, required).contains(path),
{
    lemma_leaves_with_stats(leaf_columns(s, Seq::empty()), config, required, path);
}

proof fn lemma_leaves_with_stats(
    leaves: Seq<Seq<Seq<char>>>,
    config: StatsConfigView,
    required: Option<Seq<Seq<Seq<char>>>>,
    path: Seq<Seq<char>>,
)
    ensures
        leaves_with_stats(leaves, config, required).contains(path) ==> leaves.contains(path),
        leaves.contains(path) && required is Some && under_one_of(required->0, path)
            ==> leaves_with_stats(leaves, config, required).contains(path),
    decreases leaves.len(),
{
    if leaves.len() > 0 {
        let front = leaves.drop_last();
        lemma_leaves_with_stats(front, config, required, path);
        let kept = leaves_with_stats(front, config, required);
        let all = leaves_with_stats(leaves, config, required);
        if all.contains(path) {
            let i = choose|i: int| 0 <= i < all.len() && all[i] == path;
            if i < kept.len() {
                assert(kept[i] == path);
                let j = choose|j: int| 0 <= j < front.len() && front[j] == path;
                assert(leaves[j] == path);
            } else {
                assert(leaves[leaves.len() - 1] == path);
            }
        }
        if leaves.contains(path) && required is Some && under_one_of(required->0, path) {
            let j = choose|j: int| 0 <= j < leaves.len() && leaves[j] == path;
            if j < front.len() {
                assert(front[j] == path);
                let i = choose|i: int| 0 <= i < kept.len() && kept[i] == path;
                assert(all[i] == path);
            } else {
                assert(all[all.len() - 1] == path);
            }
        }
    }
}

/// Appends the leaf columns of fields.
fn collect_leaves(
    fields: &Vec<StructField>,
    prefix: &Vec<String>,
    out: &mut Vec<ColumnName>,
)
    ensures
        expressions::columns_view(final(out)@) == expressions::columns_view(old(out)@) + leaf_columns(
            schema::fields_view(fields@),
            text::texts(prefix@),
        ),
    decreases fields@,
{
    let ghost s = schema::fields_view(fields@);
    let ghost start = expressions::columns_view(out@);
    let ghost p = text::texts(prefix@);
    let mut i: usize = 0;
    assert(s.take(0) =~= Seq::<FieldView>::empty());
    assert(start + leaf_columns(s.take(0), p) =~= start);
    while i < fields.len()
        invariant
            i <= fields@.len(),
            s == schema::fields_view(fields@),
            p == text::texts(prefix@),
            expressions::columns_view(out@) == start + leaf_columns(s.take(i as int), p),
        decreases fields.len() - i,
    {
        let ghost before = expressions::columns_view(out@);
        assert(s[i as int] == schema::field_view(fields@[i as int]));
        assert(s.take(i + 1).drop_last() =~= s.take(i as int));
        assert(s.take(i + 1).last() == s[i as int]);
        assert(leaf_columns(s.take(i + 1), p) == leaf_columns(s.take(i as int), p)
            + field_leaf_columns(s[i as int], p));
        match &fields[i].data_type {
            DataType::Struct(inner) => {
                let mut path = clone_texts(prefix);
                path.push(fields[i].name.clone());
                assert(text::texts(path@) =~= p.push(s[i as int].name));
                collect_leaves(&inner.fields, &path, out);
                assert(expressions::columns_view(out@) =~= start + leaf_columns(s.take(i + 1), p));
            },
            DataType::Primitive(_) => {
                let mut path = clone_texts(prefix);
                path.push(fields[i].name.clone());
                assert(text::texts(path@) =~= p.push(s[i as int].name));
                let column = ColumnName { path };
                out.push(column);
                assert(expressions::columns_view(out@) =~= before.push(column@));
                assert(expressions::columns_view(out@) =~= start + leaf_columns(s.take(i + 1), p));
            },
            _ => {
                assert(expressions::columns_view(out@) =~= start + leaf_columns(s.take(i + 1), p));
            },
        }
        i += 1;
    }
    assert(s.take(i as int) =~= s);
}

/// Whether a column is one of the listed columns or lies inside one of them.
pub fn lies_under(list: &Vec<ColumnName>, column: &ColumnName) -> (r: bool)
    ensures
        r == under_one_of(expressions::columns_view(list@), column@),
{
    let ghost l = expressions::columns_view(list@);
    let mut i: usize = 0;
    while i < list.len()
        invariant
            i <= list@.len(),
            l == expressions::columns_view(list@),
            forall|j: int| 0 <= j < i ==> !is_within(#[trigger] l[j], column@),
        decreases list.len() - i,
    {
        assert(l[i as int] == list@[i as int]@);
        if column_is_within(&list[i], column) {
            return true;
        }
        i += 1;
    }
    false
}

/// Whether a column is another one or lies inside it.
fn column_is_within(outer: &ColumnName, column: &ColumnName) -> (r: bool)
    ensures
        r == is_within(outer@, column@),
{
    if outer.path.len() > column.path.len() {
        return false;
    }
    let mut i: usize = 0;
    while i < outer.path.len()
        invariant
            i <= outer.path@.len() <= column.path@.len(),
            forall|j: int| 0 <= j < i ==> outer@[j] == column@[j],
        decreases outer.path.len() - i,
    {
        assert(outer@[i as int] == outer.path@[i as int]@);
        assert(column@[i as int] == column.path@[i as int]@);
        if !(outer.path[i] == column.path[i]) {
            assert(column@.take(outer@.len() as int)[i as int] != outer@[i as int]);
            return false;
        }
        i += 1;
    }
    assert(column@.take(outer@.len() as int) =~= outer@);
    true
}

/// The columns of a schema that have statistics: the listed columns, or the first ones where none
/// are listed, and those that are required in any case.
pub fn stats_column_names(
    schema: &StructType,
    config: &StatsConfig<'_>,
    required: Option<&Vec<ColumnName>>,
) -> (r: Vec<ColumnName>)
    ensures
        expressions::columns_view(r@) == stats_columns_of(schema@, config@, opt_columns_ref(required)),
{
    let mut leaves: Vec<ColumnName> = Vec::new();
    let prefix: Vec<String> = Vec::new();
    assert(text::texts(prefix@) =~= Seq::<Seq<char>>::empty());
    assert(expressions::columns_view(leaves@) =~= Seq::<Seq<Seq<char>>>::empty());
    collect_leaves(&schema.fields, &prefix, &mut leaves);
    let ghost all = leaf_columns(schema@, Seq::empty());
    assert(expressions::columns_view(leaves@) =~= all);
    let ghost req = opt_columns_ref(required);
    let mut kept: Vec<ColumnName> = Vec::new();
    let mut i: usize = 0;
    assert(all.take(0) =~= Seq::<Seq<Seq<char>>>::empty());
    assert(expressions::columns_view(kept@) =~= Seq::<Seq<Seq<char>>>::empty());
    while i < leaves.len()
        invariant
            i <= leaves@.len(),
            expressions::columns_view(leaves@) == all,
            req == opt_columns_ref(required),
            expressions::columns_view(kept@) == leaves_with_stats(all.take(i as int), config@, req),
        decreases leaves.len() - i,
    {
        let ghost before = expressions::columns_view(kept@);
        assert(all[i as int] == leaves@[i as int]@);
        assert(all.take(i + 1).drop_last() =~= all.take(i as int));
        assert(all.take(i + 1).last() == all[i as int]);
        let is_required = match required {
            Some(list) => lies_under(list, &leaves[i]),
            None => false,
        };
        let keep = is_required || match config.data_skipping_stats_columns {
            Some(listed) => lies_under(listed, &leaves[i]),
            None => match config.data_skipping_num_indexed_cols {
                Some(DataSkippingNumIndexedCols::AllColumns) => true,
                Some(DataSkippingNumIndexedCols::NumColumns(n)) => (i as u64) < n,
                None => (i as u64) < DEFAULT_NUM_INDEXED_COLS,
            },
        };
        if keep {
            let column = leaves[i].clone();
            kept.push(column);
            assert(expressions::columns_view(kept@) =~= before.push(column@));
        }
        i += 1;
    }
    assert(all.take(i as int) =~= all);
    kept
}

/// What is kept of a column: how many values are null, or the smallest or largest value.
#[derive(Debug, Clone, Copy, PartialEq, Eq, Structural)]
pub enum StatKind {
    NullCount,
    MinMax,
}

/// Whether the smallest and largest values of a type are kept.
pub open spec fn has_min_max(p: PrimitiveType) -> bool {
    !(p is Boolean || p is Binary)
}

/// Whether the smallest and largest values of a type are kept.
pub fn is_skipping_eligible_datatype(p: &PrimitiveType) -> (r: bool)
    ensures
        r == has_min_max(*p),
{
    !matches!(p, PrimitiveType::Boolean | PrimitiveType::Binary)
}

/// The fields for a kind of statistics on the given leaf columns. All of them may be null, and a
/// struct without any leaf column is left out.
pub open spec fn stats_fields(
    s: Seq<FieldView>,
    prefix: Seq<Seq<char>>,
    columns: Seq<Seq<Seq<char>>>,
    kind: StatKind,
) -> Seq<FieldView>
    decreases s,
{
    if s.len() == 0 {
        Seq::empty()
    } else {
        let front = stats_fields(s.drop_last(), prefix, columns, kind);
        match stats_field(s.last(), prefix, columns, kind) {
            Some(f) => front.push(f),
            None => front,
        }
    }
}

/// The field for a kind of statistics on the leaf columns of one field.
pub open spec fn stats_field(
    f: FieldView,
    prefix: Seq<Seq<char>>,
    columns: Seq<Seq<Seq<char>>>,
    kind: StatKind,
) -> Option<FieldView>
    decreases f,
{
    match f.data_type {
        DataTypeView::Struct(inner) => {
            let kept = stats_fields(inner, prefix.push(f.name), columns, kind);
            if kept.len() > 0 {
                Some(FieldView { data_type: DataTypeView::Struct(kept), nullable: true, ..f })
            } else {
                None
            }
        },
        DataTypeView::Primitive(p) => if !columns.contains(prefix.push(f.name)) {
            None
        } else if kind is NullCount {
            Some(FieldView { data_type: schema::primitive(PrimitiveType::Long), nullable: true, ..f })
        } else if has_min_max(p) {
            Some(FieldView { nullable: true, ..f })
        } else {
            None
        },
        _ => None,
    }
}

/// The columns that lie under the requested ones, where some are requested.
pub open spec fn requested_of(
    columns: Seq<Seq<Seq<char>>>,
    requested: Option<Seq<Seq<Seq<char>>>>,
) -> Seq<Seq<Seq<char>>>
    decreases columns.len(),
{
    match requested {
        None => columns,
        Some(list) => if columns.len() == 0 {
            columns
        } else {
            let front = requested_of(columns.drop_last(), requested);
            if under_one_of(list, columns.last()) {
                front.push(columns.last())
            } else {
                front
            }
        },
    }
}

/// The schema of the statistics on the given columns: the number of records, for each kind that is
/// kept of some column a struct with the fields for it, and whether the bounds are tight.
pub open spec fn stats_schema_for(s: Seq<FieldView>, columns: Seq<Seq<Seq<char>>>) -> Seq<
    FieldView,
> {
    let nulls = stats_fields(s, Seq::empty(), columns, StatKind::NullCount);
    let values = stats_fields(s, Seq::empty(), columns, StatKind::MinMax);
    let records = seq![schema::plain_field("numRecords"@, schema::primitive(PrimitiveType::Long), true)];
    let with_nulls = if nulls.len() > 0 {
        records.push(schema::plain_field("nullCount"@, DataTypeView::Struct(nulls), true))
    } else {
        records
    };
    let with_values = if values.len() > 0 {
        with_nulls.push(schema::plain_field("minValues"@, DataTypeView::Struct(values), true)).push(
            schema::plain_field("maxValues"@, DataTypeView::Struct(values), true),
        )
    } else {
        with_nulls
    };
    with_values.push(
        schema::plain_field("tightBounds"@, schema::primitive(PrimitiveType::Boolean), true),
    )
}

/// The schema of the statistics on a file of a table.
pub open spec fn expected_stats_of(
    s: Seq<FieldView>,
    config: StatsConfigView,
    required: Option<Seq<Seq<Seq<char>>>>,
    requested: Option<Seq<Seq<Seq<char>>>>,
) -> Seq<FieldView> {
    stats_schema_for(s, requested_of(stats_columns_of(s, config, required), requested))
}

/// The columns that lie under the requested ones.
fn keep_requested(columns: &Vec<ColumnName>, requested: Option<&Vec<ColumnName>>) -> (r: Vec<
    ColumnName,
>)
    ensures
        expressions::columns_view(r@) == requested_of(expressions::columns_view(columns@), opt_columns_ref(requested)),
{
    let list = match requested {
        None => {
            return clone_columns(columns);
        },
        Some(list) => list,
    };
    let ghost all = expressions::columns_view(columns@);
    let ghost req = opt_columns_ref(requested);
    let mut kept: Vec<ColumnName> = Vec::new();
    let mut i: usize = 0;
    assert(all.take(0) =~= Seq::<Seq<Seq<char>>>::empty());
    assert(expressions::columns_view(kept@) =~= Seq::<Seq<Seq<char>>>::empty());
    while i < columns.len()
        invariant
            i <= columns@.len(),
            all == expressions::columns_view(columns@),
            req == Some(expressions::columns_view(list@)),
            expressions::columns_view(kept@) == requested_of(all.take(i as int), req),
        decreases columns.len() - i,
    {
        let ghost before = expressions::columns_view(kept@);
        assert(all[i as int] == columns@[i as int]@);
        assert(all.take(i + 1).drop_last() =~= all.take(i as int));
        assert(all.take(i + 1).last() == all[i as int]);
        if lies_under(list, &columns[i]) {
            let column = columns[i].clone();
            kept.push(column);
            assert(expressions::columns_view(kept@) =~= before.push(column@));
        }
        i += 1;
    }
    assert(all.take(i as int) =~= all);
    kept
}

/// The fields for a kind of statistics on the given leaf columns.
fn build_stats_fields(
    fields: &Vec<StructField>,
    prefix: &Vec<String>,
    columns: &Vec<ColumnName>,
    kind: StatKind,
) -> (r: Vec<StructField>)
    ensures
        schema::fields_view(r@) == stats_fields(
            schema::fields_view(fields@),
            text::texts(prefix@),
            expressions::columns_view(columns@),
            kind,
        ),
    decreases fields@,
{
    let ghost s = schema::fields_view(fields@);
    let ghost p = text::texts(prefix@);
    let ghost c = expressions::columns_view(columns@);
    let mut out: Vec<StructField> = Vec::new();
    let mut i: usize = 0;
    assert(s.take(0) =~= Seq::<FieldView>::empty());
    assert(schema::fields_view(out@) =~= Seq::<FieldView>::empty());
    while i < fields.len()
        invariant
            i <= fields@.len(),
            s == schema::fields_view(fields@),
            p == text::texts(prefix@),
            c == expressions::columns_view(columns@),
            schema::fields_view(out@) == stats_fields(s.take(i as int), p, c, kind),
        decreases fields.len() - i,
    {
        let ghost before = schema::fields_view(out@);
        assert(s[i as int] == schema::field_view(fields@[i as int]));
        assert(s.take(i + 1).drop_last() =~= s.take(i as int));
        assert(s.take(i + 1).last() == s[i as int]);
        let ghost field = stats_field(s[i as int], p, c, kind);
        let mut path = clone_texts(prefix);
        path.push(fields[i].name.clone());
        assert(text::texts(path@) =~= p.push(s[i as int].name));
        let stat: Option<DataType> = match &fields[i].data_type {
            DataType::Struct(inner) => {
                let kept = build_stats_fields(&inner.fields, &path, columns, kind);
                if kept.len() > 0 {
                    Some(DataType::struct_of(StructType { fields: kept }))
                } else {
                    None
                }
            },
            DataType::Primitive(t) => {
                let column = ColumnName { path };
                let listed = contains_column(columns, &column);
                match kind {
                    StatKind::NullCount => if listed {
                        Some(DataType::long())
                    } else {
                        None
                    },
                    StatKind::MinMax => if listed && is_skipping_eligible_datatype(t) {
                        Some(DataType::Primitive(*t))
                    } else {
                        None
                    },
                }
            },
            _ => None,
        };
        assert(stat is Some <==> field is Some);
        if let Some(data_type) = stat {
            let f = StructField {
                name: fields[i].name.clone(),
                data_type,
                nullable: true,
                metadata: fields[i].metadata.clone(),
            };
            assert(field == Some(f@));
            out.push(f);
            assert(schema::fields_view(out@) =~= before.push(f@));
        }
        i += 1;
    }
    assert(s.take(i as int) =~= s);
    out
}

/// The schema of the statistics on a file with the given schema.
pub fn expected_stats_schema(
    schema: &StructType,
    config: &StatsConfig<'_>,
    required: Option<&Vec<ColumnName>>,
    requested: Option<&Vec<ColumnName>>,
) -> (r: StructType)
    ensures
        r@ == expected_stats_of(
            schema@,
            config@,
            opt_columns_ref(required),
            opt_columns_ref(requested),
        ),
{
    let names = stats_column_names(schema, config, required);
    let columns = keep_requested(&names, requested);
    let prefix: Vec<String> = Vec::new();
    assert(text::texts(prefix@) =~= Seq::<Seq<char>>::empty());
    let nulls = build_stats_fields(&schema.fields, &prefix, &columns, StatKind::NullCount);
    let values = build_stats_fields(&schema.fields, &prefix, &columns, StatKind::MinMax);
    let ghost nv = schema::fields_view(nulls@);
    let ghost vv = schema::fields_view(values@);
    let mut fields = vec![StructField::nullable("numRecords", DataType::long())];
    let ghost f1 = seq![schema::plain_field("numRecords"@, schema::primitive(PrimitiveType::Long), true)];
    assert(schema::fields_view(fields@) =~= f1);
    if nulls.len() > 0 {
        fields.push(
            StructField::nullable("nullCount", DataType::struct_of(StructType { fields: nulls })),
        );
        assert(schema::fields_view(fields@) =~= f1.push(
            schema::plain_field("nullCount"@, DataTypeView::Struct(nv), true),
        ));
    }
    let ghost f2 = schema::fields_view(fields@);
    if values.len() > 0 {
        let min_max = StructType { fields: values };
        fields.push(StructField::nullable("minValues", DataType::struct_of(min_max.clone())));
        assert(schema::fields_view(fields@) =~= f2.push(
            schema::plain_field("minValues"@, DataTypeView::Struct(vv), true),
        ));
        let ghost f3 = schema::fields_view(fields@);
        fields.push(StructField::nullable("maxValues", DataType::struct_of(min_max)));
        assert(schema::fields_view(fields@) =~= f3.push(
            schema::plain_field("maxValues"@, DataTypeView::Struct(vv), true),
        ));
    }
    let ghost f4 = schema::fields_view(fields@);
    fields.push(StructField::nullable("tightBounds", DataType::boolean()));
    assert(schema::fields_view(fields@) =~= f4.push(
        schema::plain_field("tightBounds"@, schema::primitive(PrimitiveType::Boolean), true),
    ));
    StructType { fields }
}

} // verus!
