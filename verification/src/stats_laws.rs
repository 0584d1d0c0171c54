//! Which columns have statistics, and of what type.
use vstd::prelude::*;

use crate::schema::{self, DataTypeView, FieldView, PrimitiveType};
use crate::stats_schema::{self, StatKind, StatsConfigView};
use crate::table_configuration;
use crate::table_properties::DataSkippingNumIndexedCols;
use crate::transaction::{self, TxnView};

verus! {

/// Whether a path leads, through structs, to a column of a primitive type.
pub open spec fn leads_to(s: Seq<FieldView>, path: Seq<Seq<char>>, t: PrimitiveType) -> bool
    decreases path.len(),
{
    path.len() > 0 && exists|i: int|
        0 <= i < s.len() && (#[trigger] s[i]).name == path[0] && (match s[i].data_type {
            DataTypeView::Primitive(p) => path.len() == 1 && p == t,
            DataTypeView::Struct(inner) => path.len() > 1 && leads_to(inner, path.skip(1), t),
            _ => false,
        })
}

/// Whether one column leads, by a path, to a primitive type.
pub open spec fn field_leads_to(f: FieldView, path: Seq<Seq<char>>, t: PrimitiveType) -> bool {
    path.len() > 0 && f.name == path[0] && (match f.data_type {
        DataTypeView::Primitive(p) => path.len() == 1 && p == t,
        DataTypeView::Struct(inner) => path.len() > 1 && leads_to(inner, path.skip(1), t),
        _ => false,
    })
}

/// A path leads somewhere through one of the columns.
proof fn lemma_leads_by_field(s: Seq<FieldView>, path: Seq<Seq<char>>, t: PrimitiveType)
    ensures
        leads_to(s, path, t) <==> exists|i: int|
            0 <= i < s.len() && field_leads_to(#[trigger] s[i], path, t),
        s.len() > 0 ==> (leads_to(s, path, t) <==> leads_to(s.drop_last(), path, t)
            || field_leads_to(s.last(), path, t)),
{
    if leads_to(s, path, t) {
        let i = choose|i: int|
            0 <= i < s.len() && (#[trigger] s[i]).name == path[0] && (match s[i].data_type {
                DataTypeView::Primitive(p) => path.len() == 1 && p == t,
                DataTypeView::Struct(inner) => path.len() > 1 && leads_to(inner, path.skip(1), t),
                _ => false,
            });
        assert(field_leads_to(s[i], path, t));
        if i < s.len() - 1 {
            assert(s.drop_last()[i] == s[i]);
        }
    }
    if exists|i: int| 0 <= i < s.len() && field_leads_to(#[trigger] s[i], path, t) {
        let i = choose|i: int| 0 <= i < s.len() && field_leads_to(#[trigger] s[i], path, t);
        assert(s[i].name == path[0]);
    }
    if s.len() > 0 {
        let front = s.drop_last();
        if leads_to(front, path, t) {
            let i = choose|i: int|
                0 <= i < front.len() && (#[trigger] front[i]).name == path[0] && (
                match front[i].data_type {
                    DataTypeView::Primitive(p) => path.len() == 1 && p == t,
                    DataTypeView::Struct(inner) => path.len() > 1 && leads_to(
                        inner,
                        path.skip(1),
                        t,
                    ),
                    _ => false,
                });
            assert(s[i] == front[i]);
        }
        if field_leads_to(s.last(), path, t) {
            assert(s[s.len() - 1].name == path[0]);
        }
    }
}

/// A list of one after the other holds what either holds.
proof fn lemma_either(a: Seq<Seq<Seq<char>>>, b: Seq<Seq<Seq<char>>>, x: Seq<Seq<char>>)
    ensures
        (a + b).contains(x) <==> a.contains(x) || b.contains(x),
{
    if (a + b).contains(x) {
        let i = choose|i: int| 0 <= i < (a + b).len() && (a + b)[i] == x;
        if i < a.len() {
            assert(a[i] == x);
        } else {
            assert(b[i - a.len()] == x);
        }
    }
    if a.contains(x) {
        let i = choose|i: int| 0 <= i < a.len() && a[i] == x;
        assert((a + b)[i] == x);
    }
    if b.contains(x) {
        let i = choose|i: int| 0 <= i < b.len() && b[i] == x;
        assert((a + b)[a.len() + i] == x);
    }
}

/// Whether a path leads to a column of some primitive type.
pub open spec fn leads_somewhere(s: Seq<FieldView>, path: Seq<Seq<char>>) -> bool {
    exists|t: PrimitiveType| leads_to(s, path, t)
}

/// The leaf columns of a schema are exactly those that a path leads to: each column of a primitive
/// type, at the top level or inside structs.
pub proof fn leaf_columns_are_where_paths_lead(
    s: Seq<FieldView>,
    prefix: Seq<Seq<char>>,
    path: Seq<Seq<char>>,
)
    ensures
        stats_schema::leaf_columns(s, prefix).contains(prefix + path) <==> leads_somewhere(s, path),
    decreases s,
{
    if s.len() == 0 {
        assert forall|t: PrimitiveType| !leads_to(s, path, t) by {
            lemma_leads_by_field(s, path, t);
        }
    } else {
        let front = s.drop_last();
        leaf_columns_are_where_paths_lead(front, prefix, path);
        lemma_field_leaf_columns(s.last(), prefix, path);
        lemma_either(
            stats_schema::leaf_columns(front, prefix),
            stats_schema::field_leaf_columns(s.last(), prefix),
            prefix + path,
        );
        if leads_somewhere(s, path) {
            let t = choose|t: PrimitiveType| leads_to(s, path, t);
            lemma_leads_by_field(s, path, t);
            if leads_to(front, path, t) {
                assert(leads_somewhere(front, path));
            }
        }
        if leads_somewhere(front, path) {
            let t = choose|t: PrimitiveType| leads_to(front, path, t);
            lemma_leads_by_field(s, path, t);
        }
        if exists|t: PrimitiveType| field_leads_to(s.last(), path, t) {
            let t = choose|t: PrimitiveType| field_leads_to(s.last(), path, t);
            lemma_leads_by_field(s, path, t);
        }
    }
}

proof fn lemma_field_leaf_columns(f: FieldView, prefix: Seq<Seq<char>>, path: Seq<Seq<char>>)
    ensures
        stats_schema::field_leaf_columns(f, prefix).contains(prefix + path) <==> exists|
            t: PrimitiveType,
        |
            field_leads_to(f, path, t),
    decreases f,
{
    let own = stats_schema::field_leaf_columns(f, prefix);
    match f.data_type {
        DataTypeView::Primitive(p) => {
            assert(own[0] == prefix.push(f.name));
            if own.contains(prefix + path) {
                assert((prefix + path).len() == prefix.len() + 1);
                assert((prefix + path)[prefix.len() as int] == f.name);
                assert(path[0] == f.name);
                assert(field_leads_to(f, path, p));
            }
            if exists|t: PrimitiveType| field_leads_to(f, path, t) {
                assert(prefix + path =~= prefix.push(f.name));
            }
        },
        DataTypeView::Struct(inner) => {
            let longer = prefix.push(f.name);
            if path.len() > 0 && path[0] == f.name {
                assert(prefix + path =~= longer + path.skip(1));
                leaf_columns_are_where_paths_lead(inner, longer, path.skip(1));
                if own.contains(prefix + path) {
                    let t = choose|t: PrimitiveType| leads_to(inner, path.skip(1), t);
                    assert(field_leads_to(f, path, t));
                }
                if exists|t: PrimitiveType| field_leads_to(f, path, t) {
                    let t = choose|t: PrimitiveType| field_leads_to(f, path, t);
                    assert(leads_to(inner, path.skip(1), t));
                }
            } else if own.contains(prefix + path) {
                stats_schema::lemma_leaf_columns_start(inner, longer, prefix + path);
                assert((prefix + path).take(longer.len() as int)[prefix.len() as int]
                    == longer[prefix.len() as int]);
                assert((prefix + path)[prefix.len() as int] == f.name);
                assert(path.len() > 0);
                assert(path[0] == f.name);
            }
        },
        _ => {
            assert(own.len() == 0);
        },
    }
}

/// Whether the leaf column at a position is to have statistics: it is required, or one of those that
/// the table properties name; where they name none, it is among the first so many that they give, all
/// of them for all columns, or among the first thirty-two where they give no number.
pub open spec fn is_indexed(
    position: int,
    path: Seq<Seq<char>>,
    config: StatsConfigView,
    required: Option<Seq<Seq<Seq<char>>>>,
) -> bool {
    ||| required is Some && within_one_of(required->0, path)
    ||| config.columns is Some && within_one_of(config.columns->0, path)
    ||| config.columns is None && match config.num_indexed_cols {
        Some(DataSkippingNumIndexedCols::AllColumns) => true,
        Some(DataSkippingNumIndexedCols::NumColumns(n)) => position < n,
        None => position < 32,
    }
}

/// Whether a path is one of a list or inside one of them.
pub open spec fn within_one_of(list: Seq<Seq<Seq<char>>>, path: Seq<Seq<char>>) -> bool {
    exists|i: int|
        0 <= i < list.len() && (#[trigger] list[i]).len() <= path.len() && path.subrange(
            0,
            list[i].len() as int,
        ) == list[i]
}

proof fn lemma_within(list: Seq<Seq<Seq<char>>>, path: Seq<Seq<char>>)
    ensures
        stats_schema::under_one_of(list, path) <==> within_one_of(list, path),
{
    assert forall|i: int| 0 <= i < list.len() implies stats_schema::is_within(
        #[trigger] list[i],
        path,
    ) == (list[i].len() <= path.len() && path.subrange(0, list[i].len() as int) == list[i]) by {
        if list[i].len() <= path.len() {
            assert(path.take(list[i].len() as int) =~= path.subrange(0, list[i].len() as int));
        }
    }
}

/// Whether a path is that of a leaf column that is to have statistics.
pub open spec fn is_indexed_leaf(
    leaves: Seq<Seq<Seq<char>>>,
    config: StatsConfigView,
    required: Option<Seq<Seq<Seq<char>>>>,
    path: Seq<Seq<char>>,
) -> bool {
    exists|i: int|
        0 <= i < leaves.len() && is_indexed(i, #[trigger] leaves[i], config, required) && leaves[i]
            == path
}

/// Statistics are on exactly those leaf columns that are to have them.
pub proof fn indexed_columns_have_stats(
    s: Seq<FieldView>,
    config: StatsConfigView,
    required: Option<Seq<Seq<Seq<char>>>>,
    path: Seq<Seq<char>>,
)
    ensures
        stats_schema::stats_columns_of(s, config, required).contains(path) <==> is_indexed_leaf(
            stats_schema::leaf_columns(s, Seq::empty()),
            config,
            required,
            path,
        ),
{
    lemma_indexed(stats_schema::leaf_columns(s, Seq::empty()), config, required, path);
}

proof fn lemma_indexed(
    leaves: Seq<Seq<Seq<char>>>,
    config: StatsConfigView,
    required: Option<Seq<Seq<Seq<char>>>>,
    path: Seq<Seq<char>>,
)
    ensures
        stats_schema::leaves_with_stats(leaves, config, required).contains(path) <==> is_indexed_leaf(
            leaves,
            config,
            required,
            path,
        ),
    decreases leaves.len(),
{
    let columns = stats_schema::leaves_with_stats(leaves, config, required);
    if leaves.len() > 0 {
        let front = leaves.drop_last();
        let n = leaves.len() - 1;
        lemma_indexed(front, config, required, path);
        let before = stats_schema::leaves_with_stats(front, config, required);
        if required is Some {
            lemma_within(required->0, leaves.last());
        }
        if config.columns is Some {
            lemma_within(config.columns->0, leaves.last());
        }
        assert(stats_schema::leaf_has_stats(n, leaves.last(), config, required) == is_indexed(
            n,
            leaves[n],
            config,
            required,
        ));
        if is_indexed_leaf(leaves, config, required, path) {
            let i = choose|i: int|
                0 <= i < leaves.len() && is_indexed(i, #[trigger] leaves[i], config, required)
                    && leaves[i] == path;
            if i < n {
                assert(front[i] == leaves[i]);
                assert(before.contains(path));
                let k = choose|k: int| 0 <= k < before.len() && before[k] == path;
                assert(columns[k] == path);
            } else {
                assert(columns[columns.len() - 1] == path);
            }
        }
        if columns.contains(path) {
            let k = choose|k: int| 0 <= k < columns.len() && columns[k] == path;
            if k < before.len() {
                assert(before[k] == path);
                assert(before.contains(path));
                let i = choose|i: int|
                    0 <= i < front.len() && is_indexed(i, #[trigger] front[i], config, required)
                        && front[i] == path;
                assert(leaves[i] == front[i]);
            } else {
                assert(is_indexed(n, leaves[n], config, required));
            }
        }
    }
}

/// Of the columns with statistics, those that are asked for are kept: all where none are named, and
/// otherwise each that is one of the named ones or inside one.
pub proof fn requested_stats_are_kept(
    columns: Seq<Seq<Seq<char>>>,
    requested: Option<Seq<Seq<Seq<char>>>>,
    path: Seq<Seq<char>>,
)
    ensures
        stats_schema::requested_of(columns, requested).contains(path) <==> columns.contains(path)
            && (requested matches Some(list) ==> within_one_of(list, path)),
    decreases columns.len(),
{
    let kept = stats_schema::requested_of(columns, requested);
    if let Some(list) = requested {
        if columns.len() > 0 {
            let front = columns.drop_last();
            requested_stats_are_kept(front, requested, path);
            let before = stats_schema::requested_of(front, requested);
            lemma_within(list, columns.last());
            if kept.contains(path) {
                let k = choose|k: int| 0 <= k < kept.len() && kept[k] == path;
                if k < before.len() {
                    assert(before[k] == path);
                    assert(before.contains(path));
                    let i = choose|i: int| 0 <= i < front.len() && front[i] == path;
                    assert(columns[i] == path);
                } else {
                    assert(columns[columns.len() - 1] == path);
                }
            }
            if columns.contains(path) && within_one_of(list, path) {
                let i = choose|i: int| 0 <= i < columns.len() && columns[i] == path;
                if i < front.len() {
                    assert(front[i] == path);
                    assert(before.contains(path));
                    let k = choose|k: int| 0 <= k < before.len() && before[k] == path;
                    assert(kept[k] == path);
                } else {
                    assert(kept[kept.len() - 1] == path);
                }
            }
        }
    }
}

/// The type of a kind of statistics on a column: numbers of nulls are integers; smallest and largest
/// values have the type of the column, and there are none of flags and of bytes.
pub open spec fn stat_type_is(kind: StatKind, column: PrimitiveType, t: PrimitiveType) -> bool {
    match kind {
        StatKind::NullCount => t is Long,
        StatKind::MinMax => t == column && !(column is Boolean) && !(column is Binary),
    }
}

/// Whether statistics of a kind on a column have a type.
pub open spec fn has_stat(
    s: Seq<FieldView>,
    columns: Seq<Seq<Seq<char>>>,
    full: Seq<Seq<char>>,
    path: Seq<Seq<char>>,
    kind: StatKind,
    t: PrimitiveType,
) -> bool {
    columns.contains(full) && exists|u: PrimitiveType|
        leads_to(s, path, u) && stat_type_is(kind, u, t)
}

/// The fields for a kind of statistics have a column at a path exactly where the schema has one there
/// that is to have statistics of that kind, and it has the type of those.
pub proof fn stats_fields_follow_the_columns(
    s: Seq<FieldView>,
    prefix: Seq<Seq<char>>,
    columns: Seq<Seq<Seq<char>>>,
    kind: StatKind,
    path: Seq<Seq<char>>,
    t: PrimitiveType,
)
    ensures
        leads_to(stats_schema::stats_fields(s, prefix, columns, kind), path, t) <==> has_stat(
            s,
            columns,
            prefix + path,
            path,
            kind,
            t,
        ),
    decreases s,
{
    let all = stats_schema::stats_fields(s, prefix, columns, kind);
    if s.len() == 0 {
        lemma_leads_by_field(all, path, t);
        assert forall|u: PrimitiveType| !leads_to(s, path, u) by {
            lemma_leads_by_field(s, path, u);
        }
    } else {
        let front = s.drop_last();
        let before = stats_schema::stats_fields(front, prefix, columns, kind);
        stats_fields_follow_the_columns(front, prefix, columns, kind, path, t);
        lemma_stats_field(s.last(), prefix, columns, kind, path, t);
        if let Some(g) = stats_schema::stats_field(s.last(), prefix, columns, kind) {
            lemma_leads_by_field(all, path, t);
            assert(all.drop_last() =~= before);
            assert(all.last() == g);
        }
        if has_stat(s, columns, prefix + path, path, kind, t) {
            let u = choose|u: PrimitiveType| leads_to(s, path, u) && stat_type_is(kind, u, t);
            lemma_leads_by_field(s, path, u);
        }
        if has_stat(front, columns, prefix + path, path, kind, t) {
            let u = choose|u: PrimitiveType| leads_to(front, path, u) && stat_type_is(kind, u, t);
            lemma_leads_by_field(s, path, u);
        }
        if exists|u: PrimitiveType| field_leads_to(s.last(), path, u) && stat_type_is(kind, u, t) {
            let u = choose|u: PrimitiveType|
                field_leads_to(s.last(), path, u) && stat_type_is(kind, u, t);
            lemma_leads_by_field(s, path, u);
        }
    }
}

proof fn lemma_stats_field(
    f: FieldView,
    prefix: Seq<Seq<char>>,
    columns: Seq<Seq<Seq<char>>>,
    kind: StatKind,
    path: Seq<Seq<char>>,
    t: PrimitiveType,
)
    ensures
        (stats_schema::stats_field(f, prefix, columns, kind) matches Some(g) && field_leads_to(
            g,
            path,
            t,
        )) <==> columns.contains(prefix + path) && exists|u: PrimitiveType|
            field_leads_to(f, path, u) && stat_type_is(kind, u, t),
    decreases f,
{
    match f.data_type {
        DataTypeView::Primitive(p) => {
            if path.len() == 1 && path[0] == f.name {
                assert(prefix + path =~= prefix.push(f.name));
                assert(field_leads_to(f, path, p));
            }
        },
        DataTypeView::Struct(inner) => {
            let longer = prefix.push(f.name);
            if path.len() > 1 && path[0] == f.name {
                let rest = path.skip(1);
                assert(prefix + path =~= longer + rest);
                stats_fields_follow_the_columns(inner, longer, columns, kind, rest, t);
                let kept = stats_schema::stats_fields(inner, longer, columns, kind);
                if kept.len() == 0 {
                    lemma_leads_by_field(kept, rest, t);
                }
                if has_stat(inner, columns, longer + rest, rest, kind, t) {
                    let u = choose|u: PrimitiveType|
                        leads_to(inner, rest, u) && stat_type_is(kind, u, t);
                    assert(field_leads_to(f, path, u));
                }
                if exists|u: PrimitiveType| field_leads_to(f, path, u) && stat_type_is(kind, u, t) {
                    let u = choose|u: PrimitiveType|
                        field_leads_to(f, path, u) && stat_type_is(kind, u, t);
                    assert(leads_to(inner, rest, u));
                }
            }
        },
        _ => {},
    }
}

/// The schema of statistics has the number of records first and whether bounds are tight last. In
/// between it has, where any column has them, the numbers of nulls, and the smallest and the largest
/// values, in this order.
pub proof fn stats_schemas_have_their_parts(s: Seq<FieldView>, columns: Seq<Seq<Seq<char>>>)
    ensures
        ({
            let all = stats_schema::stats_schema_for(s, columns);
            let nulls = stats_schema::stats_fields(s, Seq::empty(), columns, StatKind::NullCount);
            let values = stats_schema::stats_fields(s, Seq::empty(), columns, StatKind::MinMax);
            let n = if nulls.len() > 0 {
                1int
            } else {
                0
            };
            let m = if values.len() > 0 {
                2int
            } else {
                0
            };
            &&& all.len() == 2 + n + m
            &&& all[0].name == "numRecords"@ && all[0].data_type == schema::primitive(
                PrimitiveType::Long,
            )
            &&& all.last().name == "tightBounds"@ && all.last().data_type == schema::primitive(
                PrimitiveType::Boolean,
            )
            &&& nulls.len() > 0 ==> all[1].name == "nullCount"@ && all[1].data_type
                == DataTypeView::Struct(nulls)
            &&& values.len() > 0 ==> all[1 + n].name == "minValues"@ && all[1 + n].data_type
                == DataTypeView::Struct(values) && all[2 + n].name == "maxValues"@ && all[2
                + n].data_type == DataTypeView::Struct(values)
            &&& forall|i: int| 0 <= i < all.len() ==> (#[trigger] all[i]).nullable
        }),
{
}

/// Whether the statistics on a file are those of columns: exactly the leaf columns that are to have
/// statistics and, where columns are asked for, lie within one of those.
pub open spec fn are_stats_on(
    s: Seq<FieldView>,
    config: StatsConfigView,
    required: Option<Seq<Seq<Seq<char>>>>,
    requested: Option<Seq<Seq<Seq<char>>>>,
    columns: Seq<Seq<Seq<char>>>,
    stats: Seq<FieldView>,
) -> bool {
    &&& stats == stats_schema::stats_schema_for(s, columns)
    &&& forall|path: Seq<Seq<char>>| #[trigger]
        columns.contains(path) <==> is_indexed_leaf(
            stats_schema::leaf_columns(s, Seq::empty()),
            config,
            required,
            path,
        ) && (requested matches Some(list) ==> within_one_of(list, path))
}

/// The statistics that are expected on a file are on exactly the leaf columns of the table that are to
/// have statistics and are asked for.
pub proof fn expected_stats_are_on_the_indexed_columns(
    s: Seq<FieldView>,
    config: StatsConfigView,
    required: Option<Seq<Seq<Seq<char>>>>,
    requested: Option<Seq<Seq<Seq<char>>>>,
)
    ensures
        exists|columns: Seq<Seq<Seq<char>>>|
            are_stats_on(
                s,
                config,
                required,
                requested,
                columns,
                stats_schema::expected_stats_of(s, config, required, requested),
            ),
{
    let all = stats_schema::stats_columns_of(s, config, required);
    let columns = stats_schema::requested_of(all, requested);
    assert forall|path: Seq<Seq<char>>| #[trigger] columns.contains(path) <==> is_indexed_leaf(
        stats_schema::leaf_columns(s, Seq::empty()),
        config,
        required,
        path,
    ) && (requested matches Some(list) ==> within_one_of(list, path)) by {
        indexed_columns_have_stats(s, config, required, path);
        requested_stats_are_kept(all, requested, path);
    }
    assert(are_stats_on(
        s,
        config,
        required,
        requested,
        columns,
        stats_schema::expected_stats_of(s, config, required, requested),
    ));
}

/// An engine collects statistics on exactly those data columns that are to have them: by the properties
/// of the table, and because the table is clustered by them.
pub proof fn engines_collect_the_indexed_stats<D>(t: TxnView<D>, path: Seq<Seq<char>>)
    ensures
        transaction::write_context_of(t).stats_columns.contains(path) <==> is_indexed_leaf(
            stats_schema::leaf_columns(
                table_configuration::physical_data_fields(t.config),
                Seq::empty(),
            ),
            table_configuration::stats_config_of(t.config),
            t.clustering,
            path,
        ),
{
    indexed_columns_have_stats(
        table_configuration::physical_data_fields(t.config),
        table_configuration::stats_config_of(t.config),
        t.clustering,
        path,
    );
}

/// Whether every field, at every depth, may be null.
pub open spec fn may_all_be_null(s: Seq<FieldView>) -> bool
    decreases s,
{
    forall|i: int| 0 <= i < s.len() ==> may_be_null(#[trigger] s[i])
}

/// Whether a field and those inside it may be null.
pub open spec fn may_be_null(f: FieldView) -> bool
    decreases f,
{
    f.nullable && match f.data_type {
        DataTypeView::Struct(inner) => may_all_be_null(inner),
        _ => true,
    }
}

/// Statistics on columns may be missing, whether the columns may be null or not.
pub proof fn stats_may_be_missing(
    s: Seq<FieldView>,
    prefix: Seq<Seq<char>>,
    columns: Seq<Seq<Seq<char>>>,
    kind: StatKind,
)
    ensures
        may_all_be_null(stats_schema::stats_fields(s, prefix, columns, kind)),
    decreases s,
{
    let all = stats_schema::stats_fields(s, prefix, columns, kind);
    if s.len() > 0 {
        let front = s.drop_last();
        let before = stats_schema::stats_fields(front, prefix, columns, kind);
        stats_may_be_missing(front, prefix, columns, kind);
        lemma_stat_may_be_missing(s.last(), prefix, columns, kind);
        assert forall|i: int| 0 <= i < all.len() implies may_be_null(#[trigger] all[i]) by {
            if i < before.len() {
                assert(all[i] == before[i]);
            }
        }
    }
}

proof fn lemma_stat_may_be_missing(
    f: FieldView,
    prefix: Seq<Seq<char>>,
    columns: Seq<Seq<Seq<char>>>,
    kind: StatKind,
)
    ensures
        stats_schema::stats_field(f, prefix, columns, kind) matches Some(g) ==> may_be_null(g),
    decreases f,
{
    if let DataTypeView::Struct(inner) = f.data_type {
        stats_may_be_missing(inner, prefix.push(f.name), columns, kind);
    }
}

} // verus!
