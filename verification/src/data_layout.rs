//! How the data files of a new table are organised.
use vstd::prelude::*;

use crate::actions::{DomainMetadata, DomainMetadataView};
use crate::bindings;
use crate::error::{self, DeltaResult, Error, ErrorView};
use crate::expressions::{self, ColumnName};
use crate::log_validation;
use crate::schema::{self, DataType, DataTypeView, FieldView, StructType};
use crate::schema_json::{self, quoted};
use crate::schema_transform::{self, walk_column};
use crate::stats_schema::{self, is_skipping_eligible_datatype};
use crate::table_features::ColumnMappingMode;
use crate::text::{self, text3, text5};

verus! {

/// The domain that holds the clustering columns of a table.
pub const CLUSTERING_DOMAIN_NAME: &'static str = "delta.clustering";

/// How the data files of a new table are organised.
#[derive(Debug, PartialEq, Eq)]
pub enum DataLayout {
    /// In no special way.
    Unorganized,
    /// By values of clustering columns that lie close to each other.
    Clustered { columns: Vec<ColumnName> },
    /// Into directories by the values of partition columns.
    Partitioned { columns: Vec<ColumnName> },
}

/// The mathematical value of a [`DataLayout`].
#[allow(inconsistent_fields)]
pub enum LayoutView {
    Unorganized,
    Clustered { columns: Seq<Seq<Seq<char>>> },
    Partitioned { columns: Seq<Seq<Seq<char>>> },
}

impl View for DataLayout {
    type V = LayoutView;

    open spec fn view(&self) -> LayoutView {
        match *self {
            DataLayout::Unorganized => LayoutView::Unorganized,
            DataLayout::Clustered { columns } => LayoutView::Clustered {
                columns: expressions::columns_view(columns@),
            },
            DataLayout::Partitioned { columns } => LayoutView::Partitioned {
                columns: expressions::columns_view(columns@),
            },
        }
    }
}

/// The columns of the given top-level names.
pub open spec fn top_level_columns<const N: usize>(names: [&str; N]) -> Seq<Seq<Seq<char>>> {
    Seq::new(N as nat, |i: int| seq![names@[i]@])
}

/// The columns of the given top-level names.
fn columns_of<const N: usize>(names: [&str; N]) -> (r: Vec<ColumnName>)
    ensures
        expressions::columns_view(r@) == top_level_columns(names),
{
    let mut r: Vec<ColumnName> = Vec::new();
    let mut i: usize = 0;
    while i < N
        invariant
            i <= N,
            r@.len() == i,
            forall|j: int| 0 <= j < i ==> (#[trigger] r@[j])@ == seq![names@[j]@],
        decreases N - i,
    {
        let c = ColumnName::new([names[i]]);
        assert(c@ =~= seq![names@[i as int]@]);
        r.push(c);
        i += 1;
    }
    assert(expressions::columns_view(r@) =~= top_level_columns(names));
    r
}

impl DataLayout {
    /// Clustered by the top-level columns of the given names.
    pub fn clustered<const N: usize>(columns: [&str; N]) -> (r: DataLayout)
        ensures
            r@ == (LayoutView::Clustered { columns: top_level_columns(columns) }),
    {
        DataLayout::Clustered { columns: columns_of(columns) }
    }

    /// Partitioned by the top-level columns of the given names.
    pub fn partitioned<const N: usize>(columns: [&str; N]) -> (r: DataLayout)
        ensures
            r@ == (LayoutView::Partitioned { columns: top_level_columns(columns) }),
    {
        DataLayout::Partitioned { columns: columns_of(columns) }
    }

    pub fn is_clustered(&self) -> (r: bool)
        ensures
            r == (self@ is Clustered),
    {
        matches!(self, DataLayout::Clustered { .. })
    }

    pub fn is_partitioned(&self) -> (r: bool)
        ensures
            r == (self@ is Partitioned),
    {
        matches!(self, DataLayout::Partitioned { .. })
    }
}

impl Default for DataLayout {
    fn default() -> (r: DataLayout)
        ensures
            r@ is Unorganized,
    {
        DataLayout::Unorganized
    }
}

/// The elements of a JSON array of texts.
pub open spec fn text_elements_json(s: Seq<Seq<char>>) -> Seq<char>
    decreases s.len(),
{
    if s.len() == 0 {
        Seq::empty()
    } else {
        text_elements_json(s.drop_last()) + (if s.len() > 1 {
            ","@
        } else {
            ""@
        }) + bindings::json_string(s.last())
    }
}

/// The elements of a JSON array of columns, each an array of names.
pub open spec fn column_elements_json(s: Seq<Seq<Seq<char>>>) -> Seq<char>
    decreases s.len(),
{
    if s.len() == 0 {
        Seq::empty()
    } else {
        column_elements_json(s.drop_last()) + (if s.len() > 1 {
            ","@
        } else {
            ""@
        }) + "["@ + text_elements_json(s.last()) + "]"@
    }
}

/// The configuration of the clustering domain.
pub open spec fn clustering_json(columns: Seq<Seq<Seq<char>>>) -> Seq<char> {
    "{\"clusteringColumns\":["@ + column_elements_json(columns)
        + "]}"@
}

fn text_elements(list: &Vec<String>) -> (r: String)
    ensures
        r@ == text_elements_json(text::texts(list@)),
{
    let ghost s = text::texts(list@);
    let mut r = String::new();
    let mut i: usize = 0;
    proof {
        reveal_strlit("");
        assert(s.take(0) =~= Seq::<Seq<char>>::empty());
    }
    while i < list.len()
        invariant
            i <= list@.len(),
            s == text::texts(list@),
            ""@ == Seq::<char>::empty(),
            r@ == text_elements_json(s.take(i as int)),
        decreases list.len() - i,
    {
        assert(s.take(i + 1).drop_last() =~= s.take(i as int));
        assert(s.take(i + 1).last() == list@[i as int]@);
        let ghost before = r@;
        if i > 0 {
            r.append(",");
        } else {
            assert(before + ""@ =~= before);
        }
        let one = quoted(list[i].as_str());
        r.append(one.as_str());
        i += 1;
    }
    assert(s.take(i as int) =~= s);
    r
}

fn column_elements(list: &Vec<ColumnName>) -> (r: String)
    ensures
        r@ == column_elements_json(expressions::columns_view(list@)),
{
    let ghost s = expressions::columns_view(list@);
    let mut r = String::new();
    let mut i: usize = 0;
    proof {
        reveal_strlit("");
        assert(s.take(0) =~= Seq::<Seq<Seq<char>>>::empty());
    }
    while i < list.len()
        invariant
            i <= list@.len(),
            s == expressions::columns_view(list@),
            ""@ == Seq::<char>::empty(),
            r@ == column_elements_json(s.take(i as int)),
        decreases list.len() - i,
    {
        assert(s.take(i + 1).drop_last() =~= s.take(i as int));
        assert(s.take(i + 1).last() == list@[i as int]@);
        let ghost before = r@;
        if i > 0 {
            r.append(",");
        } else {
            assert(before + ""@ =~= before);
        }
        let one = text_elements(&list[i].path);
        r.append("[");
        r.append(one.as_str());
        r.append("]");
        i += 1;
    }
    assert(s.take(i as int) =~= s);
    r
}

/// The action that sets the clustering columns.
pub open spec fn clustering_domain(columns: Seq<Seq<Seq<char>>>) -> DomainMetadataView {
    DomainMetadataView {
        domain: CLUSTERING_DOMAIN_NAME@,
        configuration: clustering_json(columns),
        removed: false,
    }
}

/// The action that sets the clustering columns.
pub fn create_clustering_domain_metadata(columns: &Vec<ColumnName>) -> (r: DomainMetadata)
    ensures
        r@ == clustering_domain(expressions::columns_view(columns@)),
{
    let elements = column_elements(columns);
    let configuration = text3(
        "{\"clusteringColumns\":[",
        elements.as_str(),
        "]}",
    );
    DomainMetadata::new(CLUSTERING_DOMAIN_NAME.to_owned(), configuration)
}

/// Whether a column stands earlier in a list.
pub open spec fn column_repeats(columns: Seq<Seq<Seq<char>>>, i: int) -> bool {
    exists|j: int| 0 <= j < i && columns[j] == columns[i]
}

/// Whether a column stands earlier in a list.
fn repeats(columns: &Vec<ColumnName>, i: usize) -> (r: bool)
    requires
        i < columns@.len(),
    ensures
        r == column_repeats(expressions::columns_view(columns@), i as int),
{
    let ghost c = expressions::columns_view(columns@);
    let mut j: usize = 0;
    while j < i
        invariant
            j <= i < columns@.len(),
            c == expressions::columns_view(columns@),
            forall|k: int| 0 <= k < j ==> c[k] != c[i as int],
        decreases i - j,
    {
        if columns[j].same(&columns[i]) {
            assert(c[j as int] == c[i as int]);
            return true;
        }
        assert(c[j as int] != c[i as int]);
        j += 1;
    }
    false
}

/// What is wrong with a clustering column.
pub open spec fn clustering_column_fault(
    s: Seq<FieldView>,
    columns: Seq<Seq<Seq<char>>>,
    i: int,
) -> Option<ErrorView> {
    if column_repeats(columns, i) {
        Some(
            ErrorView::Generic("Duplicate clustering column: '"@ + expressions::column_text(columns[i]) + "'"@),
        )
    } else {
        match schema_transform::walked(s, columns[i], ColumnMappingMode::NoMapping) {
            None => Some(
                ErrorView::Generic(
                    "Clustering column '"@ + expressions::column_text(columns[i]) + "' not found in schema"@,
                ),
            ),
            Some((f, _)) => match f.data_type {
                DataTypeView::Primitive(p) => if stats_schema::has_min_max(p) {
                    None
                } else {
                    Some(clustering_type_error(columns[i], f.data_type))
                },
                _ => Some(clustering_type_error(columns[i], f.data_type)),
            },
        }
    }
}

/// The error for a clustering column without statistics.
pub open spec fn clustering_type_error(column: Seq<Seq<char>>, t: DataTypeView) -> ErrorView {
    ErrorView::Generic(
        "Clustering column '"@ + expressions::column_text(column) + "' has unsupported type '"@ + schema_json::type_text(t)
            + "'. Clustering columns must have types with minimum and maximum statistics."@,
    )
}

/// What is wrong with clustering columns.
pub open spec fn clustering_fault(s: Seq<FieldView>, columns: Seq<Seq<Seq<char>>>) -> Option<
    ErrorView,
> {
    if columns.len() == 0 {
        Some(ErrorView::Generic("Clustering requires at least one column"@))
    } else {
        log_validation::first_fault(|i: int| clustering_column_fault(s, columns, i), 0, columns.len() as int)
    }
}

/// Checks clustering columns: there is at least one, none comes twice, and each is in the schema, at
/// any depth, with a type that has statistics.
pub fn validate_clustering_columns(schema: &StructType, columns: &Vec<ColumnName>) -> (r:
    DeltaResult<()>)
    ensures
        clustering_fault(schema@, expressions::columns_view(columns@)) is None ==> r is Ok,
        clustering_fault(schema@, expressions::columns_view(columns@)) is Some ==> error::failure(r)
            == clustering_fault(schema@, expressions::columns_view(columns@)),
{
    if columns.len() == 0 {
        return Err(Error::generic("Clustering requires at least one column"));
    }
    let ghost s = schema@;
    let ghost c = expressions::columns_view(columns@);
    let ghost fault = |i: int| clustering_column_fault(s, c, i);
    let mut i: usize = 0;
    while i < columns.len()
        invariant
            i <= columns@.len(),
            columns@.len() > 0,
            s == schema@,
            c == expressions::columns_view(columns@),
            fault == |i: int| clustering_column_fault(s, c, i),
            clustering_fault(s, c) == log_validation::first_fault(fault, i as int, c.len() as int),
        decreases columns.len() - i,
    {
        assert(c[i as int] == columns@[i as int]@);
        assert(fault(i as int) == clustering_column_fault(s, c, i as int));
        let name = columns[i].to_string();
        if repeats(columns, i) {
            return Err(
                Error::Generic(text3("Duplicate clustering column: '", name.as_str(), "'")),
            );
        }
        match walk_column(schema, columns[i].path(), ColumnMappingMode::NoMapping) {
            None => {
                return Err(
                    Error::Generic(
                        text3("Clustering column '", name.as_str(), "' not found in schema"),
                    ),
                );
            },
            Some((f, _)) => {
                let eligible = match &f.data_type {
                    DataType::Primitive(p) => is_skipping_eligible_datatype(p),
                    _ => false,
                };
                if !eligible {
                    let shown = f.data_type.to_string();
                    return Err(
                        Error::Generic(
                            text5(
                                "Clustering column '",
                                name.as_str(),
                                "' has unsupported type '",
                                shown.as_str(),
                                "'. Clustering columns must have types with minimum and maximum statistics.",
                            ),
                        ),
                    );
                }
            },
        }
        i += 1;
    }
    Ok(())
}

/// What is wrong with a partition column.
pub open spec fn partition_column_fault(
    s: Seq<FieldView>,
    columns: Seq<Seq<Seq<char>>>,
    i: int,
) -> Option<ErrorView> {
    let name = expressions::column_text(columns[i]);
    if columns[i].len() != 1 {
        Some(
            ErrorView::Generic(
                "Partition column '"@ + name
                    + "' must be a top-level column (nested paths are not supported)"@,
            ),
        )
    } else if column_repeats(columns, i) {
        Some(ErrorView::Generic("Duplicate partition column: '"@ + name + "'"@))
    } else {
        match schema::find_field(s, columns[i][0]) {
            None => Some(
                ErrorView::Generic("Partition column '"@ + name + "' not found in schema"@),
            ),
            Some(f) => if f.data_type is Primitive {
                None
            } else {
                Some(
                    ErrorView::Generic(
                        "Partition column '"@ + name + "' has non-primitive type '"@ + schema_json::type_text(
                            f.data_type,
                        ) + "'. Partition columns must have primitive types."@,
                    ),
                )
            },
        }
    }
}

/// What is wrong with partition columns.
pub open spec fn partition_fault(s: Seq<FieldView>, columns: Seq<Seq<Seq<char>>>) -> Option<
    ErrorView,
> {
    if columns.len() == 0 {
        Some(ErrorView::Generic("Partitioning requires at least one column"@))
    } else if columns.len() >= s.len() {
        Some(ErrorView::Generic("Table must have at least one non-partition column"@))
    } else {
        log_validation::first_fault(|i: int| partition_column_fault(s, columns, i), 0, columns.len() as int)
    }
}

/// Checks partition columns: there is at least one, none comes twice, each is a top-level column of
/// the schema with a primitive type, and there are other columns besides.
pub fn validate_partition_columns(schema: &StructType, partition_columns: &Vec<ColumnName>) -> (r:
    DeltaResult<()>)
    ensures
        partition_fault(schema@, expressions::columns_view(partition_columns@)) is None ==> r is Ok,
        partition_fault(schema@, expressions::columns_view(partition_columns@)) is Some ==> error::failure(r)
            == partition_fault(schema@, expressions::columns_view(partition_columns@)),
{
    let columns = partition_columns;
    if columns.len() == 0 {
        return Err(Error::generic("Partitioning requires at least one column"));
    }
    if columns.len() >= schema.fields.len() {
        return Err(Error::generic("Table must have at least one non-partition column"));
    }
    let ghost s = schema@;
    let ghost c = expressions::columns_view(columns@);
    let ghost fault = |i: int| partition_column_fault(s, c, i);
    let mut i: usize = 0;
    while i < columns.len()
        invariant
            i <= columns@.len(),
            0 < columns@.len() < s.len(),
            s == schema@,
            columns == partition_columns,
            c == expressions::columns_view(columns@),
            fault == |i: int| partition_column_fault(s, c, i),
            partition_fault(s, c) == log_validation::first_fault(fault, i as int, c.len() as int),
        decreases columns.len() - i,
    {
        assert(c[i as int] == columns@[i as int]@);
        assert(fault(i as int) == partition_column_fault(s, c, i as int));
        let name = columns[i].to_string();
        let path = columns[i].path();
        assert(c[i as int].len() == path@.len());
        if path.len() != 1 {
            return Err(
                Error::Generic(
                    text3(
                        "Partition column '",
                        name.as_str(),
                        "' must be a top-level column (nested paths are not supported)",
                    ),
                ),
            );
        }
        if repeats(columns, i) {
            return Err(
                Error::Generic(text3("Duplicate partition column: '", name.as_str(), "'")),
            );
        }
        assert(c[i as int][0] == path@[0]@);
        match schema.field(path[0].as_str()) {
            None => {
                return Err(
                    Error::Generic(
                        text3("Partition column '", name.as_str(), "' not found in schema"),
                    ),
                );
            },
            Some(f) => {
                let primitive = match &f.data_type {
                    DataType::Primitive(_) => true,
                    _ => false,
                };
                if !primitive {
                    let shown = f.data_type.to_string();
                    return Err(
                        Error::Generic(
                            text5(
                                "Partition column '",
                                name.as_str(),
                                "' has non-primitive type '",
                                shown.as_str(),
                                "'. Partition columns must have primitive types.",
                            ),
                        ),
                    );
                }
            },
        }
        i += 1;
    }
    Ok(())
}

/// Partition columns that are accepted are distinct top-level columns of primitive types, and there
/// are fewer of them than columns in the schema.
pub proof fn accepted_partition_columns(s: Seq<FieldView>, columns: Seq<Seq<Seq<char>>>)
    requires
        partition_fault(s, columns) is None,
    ensures
        0 < columns.len() < s.len(),
        columns.no_duplicates(),
        forall|i: int|
            0 <= i < columns.len() ==> (#[trigger] columns[i]).len() == 1 && (schema::find_field(
                s,
                columns[i][0],
            ) matches Some(f) && f.data_type is Primitive),
{
    let fault = |i: int| partition_column_fault(s, columns, i);
    log_validation::lemma_first_fault(fault, 0, columns.len() as int);
    assert forall|i: int| 0 <= i < columns.len() implies partition_column_fault(
        s,
        columns,
        i,
    ) is None by {
        assert(fault(i) is None);
    }
    assert forall|a: int, b: int| 0 <= a < b < columns.len() implies columns[a] != columns[b] by {
        assert(partition_column_fault(s, columns, b) is None);
        assert(!column_repeats(columns, b));
    }
    assert forall|i: int| 0 <= i < columns.len() implies (#[trigger] columns[i]).len() == 1 && (
    schema::find_field(s, columns[i][0]) matches Some(f) && f.data_type is Primitive) by {
        assert(partition_column_fault(s, columns, i) is None);
    }
}

/// Clustering columns are accepted exactly where there is at least one, none comes twice, and each is
/// a column of the schema, at any depth, of a primitive type other than flags and bytes.
pub proof fn clustering_columns_are_accepted_exactly_if(
    s: Seq<FieldView>,
    columns: Seq<Seq<Seq<char>>>,
)
    ensures
        clustering_fault(s, columns) is None <==> {
            &&& columns.len() > 0
            &&& forall|i: int, j: int| 0 <= i < j < columns.len() ==> columns[i] != columns[j]
            &&& forall|i: int|
                0 <= i < columns.len() ==> (schema_transform::walked(
                    s,
                    #[trigger] columns[i],
                    ColumnMappingMode::NoMapping,
                ) matches Some((f, _)) && (f.data_type matches DataTypeView::Primitive(p) && !(
                p is Boolean) && !(p is Binary)))
        },
{
    let fault = |i: int| clustering_column_fault(s, columns, i);
    log_validation::lemma_first_fault(fault, 0, columns.len() as int);
    if clustering_fault(s, columns) is None {
        assert forall|i: int| 0 <= i < columns.len() implies #[trigger] clustering_column_fault(
            s,
            columns,
            i,
        ) is None by {
            assert(fault(i) is None);
        }
        assert forall|i: int, j: int| 0 <= i < j < columns.len() implies columns[i] != columns[j] by {
            assert(clustering_column_fault(s, columns, j) is None);
            assert(!column_repeats(columns, j));
        }
        assert forall|i: int| 0 <= i < columns.len() implies (schema_transform::walked(
            s,
            #[trigger] columns[i],
            ColumnMappingMode::NoMapping,
        ) matches Some((f, _)) && (f.data_type matches DataTypeView::Primitive(p) && !(
        p is Boolean) && !(p is Binary))) by {
            assert(clustering_column_fault(s, columns, i) is None);
        }
    }
}

/// Partition columns are accepted exactly where there is at least one, but fewer than columns in the
/// schema, none comes twice, and each is a top-level column of a primitive type.
pub proof fn partition_columns_are_accepted_exactly_if(
    s: Seq<FieldView>,
    columns: Seq<Seq<Seq<char>>>,
)
    ensures
        partition_fault(s, columns) is None <==> {
            &&& 0 < columns.len() < s.len()
            &&& forall|i: int, j: int| 0 <= i < j < columns.len() ==> columns[i] != columns[j]
            &&& forall|i: int|
                0 <= i < columns.len() ==> (#[trigger] columns[i]).len() == 1 && (schema::find_field(
                    s,
                    columns[i][0],
                ) matches Some(f) && f.data_type is Primitive)
        },
{
    let fault = |i: int| partition_column_fault(s, columns, i);
    log_validation::lemma_first_fault(fault, 0, columns.len() as int);
    if partition_fault(s, columns) is None {
        accepted_partition_columns(s, columns);
    }
}

/// Clustering columns are recorded in the domain of clustering, which is set and not removed.
pub proof fn clustering_is_recorded_in_its_domain(columns: Seq<Seq<Seq<char>>>)
    ensures
        clustering_domain(columns).domain == "delta.clustering"@,
        !clustering_domain(columns).removed,
        clustering_domain(columns).configuration == "{\"clusteringColumns\":["@
            + column_elements_json(columns) + "]}"@,
{
}

/// Clustering columns are written one after the other, with commas between them, each as a list of its
/// names in brackets; names likewise, each as a JSON text.
pub proof fn clustering_columns_are_written_as_lists(
    columns: Seq<Seq<Seq<char>>>,
    column: Seq<Seq<char>>,
    name: Seq<char>,
)
    ensures
        column_elements_json(Seq::empty()) == Seq::<char>::empty(),
        column_elements_json(seq![column]) == seq!['['] + text_elements_json(column) + seq![']'],
        columns.len() > 0 ==> column_elements_json(columns.push(column)) == column_elements_json(
            columns,
        ) + seq![',', '['] + text_elements_json(column) + seq![']'],
        text_elements_json(Seq::empty()) == Seq::<char>::empty(),
        text_elements_json(seq![name]) == bindings::json_string(name),
        column.len() > 0 ==> text_elements_json(column.push(name)) == text_elements_json(column)
            + seq![','] + bindings::json_string(name),
{
    reveal_strlit(",");
    reveal_strlit("");
    reveal_strlit("[");
    reveal_strlit("]");
    let none = Seq::<Seq<Seq<char>>>::empty();
    let nameless = Seq::<Seq<char>>::empty();
    assert(seq![column].drop_last() =~= none);
    assert(column_elements_json(none) =~= Seq::<char>::empty());
    assert(column_elements_json(seq![column]) =~= seq!['['] + text_elements_json(column) + seq![']']);
    assert(columns.push(column).drop_last() =~= columns);
    assert(seq![name].drop_last() =~= nameless);
    assert(text_elements_json(nameless) =~= Seq::<char>::empty());
    assert(text_elements_json(seq![name]) =~= bindings::json_string(name));
    assert(column.push(name).drop_last() =~= column);
    if columns.len() > 0 {
        assert(column_elements_json(columns.push(column)) =~= column_elements_json(columns) + seq![
            ',',
            '[',
        ] + text_elements_json(column) + seq![']']);
    }
    if column.len() > 0 {
        assert(text_elements_json(column.push(name)) =~= text_elements_json(column) + seq![',']
            + bindings::json_string(name));
    }
}

} // verus!
