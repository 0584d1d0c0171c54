//! Building the transaction that changes the schema of a table.
use vstd::pervasive::unreached;
use vstd::prelude::*;

use crate::schema_json;
use crate::actions::MetadataView;
use crate::column_mapping::{self, assign_to_field, count_type_fields, random_names};
use crate::error::{self, DeltaResult, Error, ErrorView};
use crate::schema::{self, position_of, FieldView, StructField, StructType};
use crate::snapshot::{Snapshot, SnapshotView};
use crate::table_configuration::{self, ConfigView, TableConfiguration};
use crate::table_features::{ColumnMappingMode, Operation};
use crate::table_properties::COLUMN_MAPPING_MAX_COLUMN_ID;
use crate::text::{self, contains_text, parse_signed, signed_text, text3};
use crate::transaction::{self, AlterTable, Transaction, TxnView};

verus! {

/// What the commit that changes a schema says that it does.
pub const ALTER_TABLE_OPERATION: &'static str = "ALTER TABLE";

/// A change of the schema of a table. Changes are made in order, and each sees the schema that those
/// before it leave.
#[derive(Debug)]
pub enum SchemaOperation {
    /// Adds a column at the top level.
    AddColumn { field: StructField },
    /// Lets a column of the top level hold nulls.
    SetNullable { column: String },
    /// Removes a column of the top level.
    DropColumn { column: String },
    /// Gives a column of the top level another name.
    RenameColumn { column: String, new_name: String },
}

/// The mathematical value of a [`SchemaOperation`].
#[allow(inconsistent_fields)]
pub enum OperationView {
    AddColumn { field: FieldView },
    SetNullable { column: Seq<char> },
    DropColumn { column: Seq<char> },
    RenameColumn { column: Seq<char>, new_name: Seq<char> },
}

impl View for SchemaOperation {
    type V = OperationView;

    open spec fn view(&self) -> OperationView {
        match *self {
            SchemaOperation::AddColumn { field } => OperationView::AddColumn { field: field@ },
            SchemaOperation::SetNullable { column } => OperationView::SetNullable {
                column: column@,
            },
            SchemaOperation::DropColumn { column } => OperationView::DropColumn {
                column: column@,
            },
            SchemaOperation::RenameColumn { column, new_name } => OperationView::RenameColumn {
                column: column@,
                new_name: new_name@,
            },
        }
    }
}

/// The values of a list of changes.
pub open spec fn operations_view(s: Seq<SchemaOperation>) -> Seq<OperationView> {
    Seq::new(s.len(), |i: int| s[i]@)
}

/// A schema on the way, and the highest identifier of a column so far.
pub struct EvolutionView {
    pub schema: Seq<FieldView>,
    pub max_id: int,
}

/// The error for a change of a column that the schema does not have.
pub open spec fn no_such_column(start: Seq<char>, column: Seq<char>) -> ErrorView {
    ErrorView::Generic(start + column + "': column does not exist in the schema"@)
}

/// The error for a column that is to come but is there already.
pub open spec fn column_exists(start: Seq<char>, column: Seq<char>) -> ErrorView {
    ErrorView::Generic(start + column + "': column already exists in the schema"@)
}

/// What a change makes of a schema. The physical names for the identifiers after `base` are given.
pub open spec fn evolved_by(
    s: EvolutionView,
    op: OperationView,
    mode: ColumnMappingMode,
    base: int,
    names: Seq<Seq<char>>,
) -> Result<EvolutionView, ErrorView> {
    match op {
        OperationView::AddColumn { field } => if schema::find_field(s.schema, field.name) is Some {
            Err(column_exists("Cannot add column '"@, field.name))
        } else if !field.nullable {
            Err(
                ErrorView::Generic(
                    "Cannot add non-nullable column '"@ + field.name
                        + "': existing data files would have no value for this column. Use a nullable column instead."@,
                ),
            )
        } else if mode is NoMapping {
            Ok(EvolutionView { schema: s.schema.push(field), ..s })
        } else if column_mapping::field_assign_fault(field, false) is Some {
            Err(column_mapping::field_assign_fault(field, false)->0)
        } else {
            Ok(
                EvolutionView {
                    schema: s.schema.push(column_mapping::mapped_field(field, s.max_id, base, names)),
                    max_id: s.max_id + 1 + column_mapping::type_field_count(field.data_type),
                },
            )
        },
        OperationView::SetNullable { column } => match schema::field_position(s.schema, column) {
            None => Err(no_such_column("Cannot set nullable on column '"@, column)),
            Some(i) => Ok(
                EvolutionView {
                    schema: s.schema.update(i, FieldView { nullable: true, ..s.schema[i] }),
                    ..s
                },
            ),
        },
        OperationView::DropColumn { column } => if mode is NoMapping {
            Err(
                ErrorView::Generic(
                    "Cannot drop column '"@ + column + "': column mapping must be enabled"@,
                ),
            )
        } else {
            match schema::field_position(s.schema, column) {
                None => Err(no_such_column("Cannot drop column '"@, column)),
                Some(i) => Ok(EvolutionView { schema: s.schema.remove(i), ..s }),
            }
        },
        OperationView::RenameColumn { column, new_name } => if !(mode is Name) {
            Err(
                ErrorView::Generic(
                    "Cannot rename column '"@ + column + "': column mapping mode must be 'name'"@,
                ),
            )
        } else {
            match schema::field_position(s.schema, column) {
                None => Err(no_such_column("Cannot rename column '"@, column)),
                Some(i) => if schema::find_field(s.schema, new_name) is Some {
                    Err(column_exists("Cannot rename to column '"@, new_name))
                } else {
                    Ok(
                        EvolutionView {
                            schema: s.schema.update(i, FieldView { name: new_name, ..s.schema[i] }),
                            ..s
                        },
                    )
                },
            }
        },
    }
}

/// What changes make of a schema, one after the other, or the first error. The physical names for
/// the identifiers after `base` are given.
pub open spec fn evolved(
    s: Seq<FieldView>,
    ops: Seq<OperationView>,
    mode: ColumnMappingMode,
    base: int,
    names: Seq<Seq<char>>,
) -> Result<EvolutionView, ErrorView>
    decreases ops.len(),
{
    if ops.len() == 0 {
        Ok(EvolutionView { schema: s, max_id: base })
    } else {
        match evolved(s, ops.drop_last(), mode, base, names) {
            Err(e) => Err(e),
            Ok(front) => evolved_by(front, ops.last(), mode, base, names),
        }
    }
}

/// An error of the first changes is the error of all of them.
proof fn lemma_evolved_error(
    s: Seq<FieldView>,
    ops: Seq<OperationView>,
    mode: ColumnMappingMode,
    base: int,
    names: Seq<Seq<char>>,
    n: int,
)
    requires
        0 <= n <= ops.len(),
        evolved(s, ops.take(n), mode, base, names) is Err,
    ensures
        evolved(s, ops, mode, base, names) == evolved(s, ops.take(n), mode, base, names),
    decreases ops.len(),
{
    if n == ops.len() {
        assert(ops.take(n) =~= ops);
    } else {
        assert(ops.drop_last().take(n) =~= ops.take(n));
        lemma_evolved_error(s, ops.drop_last(), mode, base, names, n);
    }
}

/// How many columns a change adds, at every depth.
pub open spec fn columns_added_by(op: OperationView) -> nat {
    match op {
        OperationView::AddColumn { field } => 1 + column_mapping::type_field_count(field.data_type),
        _ => 0,
    }
}

/// How many columns changes add, at every depth.
pub open spec fn columns_added(ops: Seq<OperationView>) -> nat
    decreases ops.len(),
{
    if ops.len() == 0 {
        0
    } else {
        columns_added(ops.drop_last()) + columns_added_by(ops.last())
    }
}

/// The first changes add no more columns than all of them.
proof fn lemma_columns_added(ops: Seq<OperationView>, n: int)
    requires
        0 <= n <= ops.len(),
    ensures
        columns_added(ops.take(n)) <= columns_added(ops),
    decreases ops.len(),
{
    if n == ops.len() {
        assert(ops.take(n) =~= ops);
    } else {
        assert(ops.drop_last().take(n) =~= ops.take(n));
        lemma_columns_added(ops.drop_last(), n);
    }
}

/// The highest identifier after changes is no higher than the number of added columns allows.
proof fn lemma_evolved_max_id(
    s: Seq<FieldView>,
    ops: Seq<OperationView>,
    mode: ColumnMappingMode,
    base: int,
    names: Seq<Seq<char>>,
)
    ensures
        evolved(s, ops, mode, base, names) matches Ok(e) ==> base <= e.max_id <= base
            + columns_added(ops),
    decreases ops.len(),
{
    if ops.len() > 0 {
        lemma_evolved_max_id(s, ops.drop_last(), mode, base, names);
    }
}

/// What changes make of a schema.
#[derive(Debug)]
pub struct SchemaEvolutionResult {
    pub schema: StructType,
    /// The new highest identifier of a column, where it changed.
    pub new_max_column_id: Option<i64>,
}

/// The new highest identifier of a column, where it changed.
pub open spec fn new_max_id(base: int, max_id: int) -> Option<i64> {
    if max_id != base {
        Some(max_id as i64)
    } else {
        None
    }
}

/// Makes one change of a schema.
fn apply_operation(
    fields: &mut Vec<StructField>,
    op: &SchemaOperation,
    mode: ColumnMappingMode,
    max_id: &mut i64,
    base: i64,
    names: &Vec<String>,
) -> (r: DeltaResult<()>)
    requires
        base <= *old(max_id),
        !(mode is NoMapping) ==> *old(max_id) + columns_added_by(op@) <= i64::MAX,
        !(mode is NoMapping) ==> *old(max_id) - base + columns_added_by(op@) <= names@.len(),
    ensures
        ({
            let before = EvolutionView {
                schema: schema::fields_view(old(fields)@),
                max_id: *old(max_id) as int,
            };
            match evolved_by(before, op@, mode, base as int, text::texts(names@)) {
                Ok(after) => r is Ok && schema::fields_view(final(fields)@) == after.schema && *final(max_id)
                    == after.max_id,
                Err(e) => error::failure(r) == Some(e),
            }
        }),
{
    let ghost s = schema::fields_view(fields@);
    match op {
        SchemaOperation::AddColumn { field } => {
            if position_of(fields, field.name.as_str()).is_some() {
                return Err(
                    Error::Generic(
                        text3(
                            "Cannot add column '",
                            field.name.as_str(),
                            "': column already exists in the schema",
                        ),
                    ),
                );
            }
            if !field.nullable {
                return Err(
                    Error::Generic(
                        text3(
                            "Cannot add non-nullable column '",
                            field.name.as_str(),
                            "': existing data files would have no value for this column. Use a nullable column instead.",
                        ),
                    ),
                );
            }
            let new_field = match mode {
                ColumnMappingMode::NoMapping => field.clone(),
                _ => match assign_to_field(field, max_id, base, names, false) {
                    Ok(f) => f,
                    Err(e) => {
                        return Err(e);
                    },
                },
            };
            let ghost g = new_field@;
            fields.push(new_field);
            assert(schema::fields_view(fields@) =~= s.push(g));
            Ok(())
        },
        SchemaOperation::SetNullable { column } => match position_of(fields, column.as_str()) {
            None => Err(
                Error::Generic(
                    text3(
                        "Cannot set nullable on column '",
                        column.as_str(),
                        "': column does not exist in the schema",
                    ),
                ),
            ),
            Some(i) => {
                let mut f = fields[i].clone();
                assert(f@ == s[i as int]);
                f.nullable = true;
                let ghost g = f@;
                fields[i] = f;
                assert(schema::fields_view(fields@) =~= s.update(i as int, g));
                Ok(())
            },
        },
        SchemaOperation::DropColumn { column } => {
            if let ColumnMappingMode::NoMapping = mode {
                return Err(
                    Error::Generic(
                        text3(
                            "Cannot drop column '",
                            column.as_str(),
                            "': column mapping must be enabled",
                        ),
                    ),
                );
            }
            match position_of(fields, column.as_str()) {
                None => Err(
                    Error::Generic(
                        text3(
                            "Cannot drop column '",
                            column.as_str(),
                            "': column does not exist in the schema",
                        ),
                    ),
                ),
                Some(i) => {
                    fields.remove(i);
                    assert(schema::fields_view(fields@) =~= s.remove(i as int));
                    Ok(())
                },
            }
        },
        SchemaOperation::RenameColumn { column, new_name } => {
            match mode {
                ColumnMappingMode::Name => {},
                _ => {
                    return Err(
                        Error::Generic(
                            text3(
                                "Cannot rename column '",
                                column.as_str(),
                                "': column mapping mode must be 'name'",
                            ),
                        ),
                    );
                },
            }
            match position_of(fields, column.as_str()) {
                None => Err(
                    Error::Generic(
                        text3(
                            "Cannot rename column '",
                            column.as_str(),
                            "': column does not exist in the schema",
                        ),
                    ),
                ),
                Some(i) => {
                    if position_of(fields, new_name.as_str()).is_some() {
                        return Err(
                            Error::Generic(
                                text3(
                                    "Cannot rename to column '",
                                    new_name.as_str(),
                                    "': column already exists in the schema",
                                ),
                            ),
                        );
                    }
                    let mut f = fields[i].clone();
                    assert(f@ == s[i as int]);
                    f.name = new_name.clone();
                    let ghost g = f@;
                    fields[i] = f;
                    assert(schema::fields_view(fields@) =~= s.update(i as int, g));
                    Ok(())
                },
            }
        },
    }
}

/// Makes changes of a schema, given the highest identifier of a column so far and the physical names
/// of the columns to come.
pub fn apply_operations_with(
    schema: &StructType,
    operations: &Vec<SchemaOperation>,
    column_mapping_mode: ColumnMappingMode,
    current_max_column_id: i64,
    names: &Vec<String>,
) -> (r: DeltaResult<SchemaEvolutionResult>)
    requires
        !(column_mapping_mode is NoMapping) ==> current_max_column_id + columns_added(
            operations_view(operations@),
        ) <= i64::MAX,
        !(column_mapping_mode is NoMapping) ==> columns_added(operations_view(operations@))
            <= names@.len(),
    ensures
        match evolved(
            schema@,
            operations_view(operations@),
            column_mapping_mode,
            current_max_column_id as int,
            text::texts(names@),
        ) {
            Ok(e) => r matches Ok(t) && t.schema@ == e.schema && t.new_max_column_id == new_max_id(
                current_max_column_id as int,
                e.max_id,
            ),
            Err(e) => error::failure(r) == Some(e),
        },
{
    let ghost ops = operations_view(operations@);
    let ghost s = schema@;
    let ghost base = current_max_column_id as int;
    let ghost n = text::texts(names@);
    let mut fields = schema.clone().fields;
    let mut max_id: i64 = current_max_column_id;
    let mut i: usize = 0;
    assert(ops.take(0) =~= Seq::<OperationView>::empty());
    while i < operations.len()
        invariant
            i <= operations@.len(),
            ops == operations_view(operations@),
            s == schema@,
            base == current_max_column_id,
            n == text::texts(names@),
            !(column_mapping_mode is NoMapping) ==> base + columns_added(ops) <= i64::MAX,
            !(column_mapping_mode is NoMapping) ==> columns_added(ops) <= names@.len(),
            evolved(s, ops.take(i as int), column_mapping_mode, base, n) == Ok::<
                EvolutionView,
                ErrorView,
            >(EvolutionView { schema: schema::fields_view(fields@), max_id: max_id as int }),
        decreases operations.len() - i,
    {
        assert(ops[i as int] == operations@[i as int]@);
        assert(ops.take(i + 1).drop_last() =~= ops.take(i as int));
        assert(ops.take(i + 1).last() == ops[i as int]);
        proof {
            lemma_columns_added(ops, i + 1);
            lemma_evolved_max_id(s, ops.take(i as int), column_mapping_mode, base, n);
        }
        if let Err(e) = apply_operation(
            &mut fields,
            &operations[i],
            column_mapping_mode,
            &mut max_id,
            current_max_column_id,
            names,
        ) {
            proof {
                lemma_evolved_error(s, ops, column_mapping_mode, base, n, i + 1);
            }
            return Err(e);
        }
        i += 1;
    }
    assert(ops.take(i as int) =~= ops);
    let new_max_column_id: Option<i64> = if max_id != current_max_column_id {
        Some(max_id)
    } else {
        None
    };
    Ok(SchemaEvolutionResult { schema: StructType { fields }, new_max_column_id })
}

/// How many columns changes add, at every depth, where that is a `usize`.
fn count_added(operations: &Vec<SchemaOperation>) -> (r: Option<usize>)
    ensures
        r matches Some(n) ==> n == columns_added(operations_view(operations@)),
        r is None ==> columns_added(operations_view(operations@)) > usize::MAX,
{
    let ghost ops = operations_view(operations@);
    let mut n: usize = 0;
    let mut i: usize = 0;
    assert(ops.take(0) =~= Seq::<OperationView>::empty());
    while i < operations.len()
        invariant
            i <= operations@.len(),
            ops == operations_view(operations@),
            n == columns_added(ops.take(i as int)),
        decreases operations.len() - i,
    {
        assert(ops[i as int] == operations@[i as int]@);
        assert(ops.take(i + 1).drop_last() =~= ops.take(i as int));
        assert(ops.take(i + 1).last() == ops[i as int]);
        proof {
            lemma_columns_added(ops, i + 1);
        }
        if let SchemaOperation::AddColumn { field } = &operations[i] {
            let inside: usize = match count_type_fields(&field.data_type) {
                Some(k) => k,
                None => {
                    return None;
                },
            };
            n = match n.checked_add(1) {
                Some(k) => match k.checked_add(inside) {
                    Some(l) => l,
                    None => {
                        return None;
                    },
                },
                None => {
                    return None;
                },
            };
        }
        i += 1;
    }
    assert(ops.take(i as int) =~= ops);
    Some(n)
}

/// Makes changes of a schema, given the highest identifier of a column so far. Columns to come get
/// random physical names where column mapping is on.
pub fn apply_schema_operations(
    schema: &StructType,
    operations: &Vec<SchemaOperation>,
    column_mapping_mode: ColumnMappingMode,
    current_max_column_id: i64,
) -> (r: DeltaResult<SchemaEvolutionResult>)
    requires
        columns_added(operations_view(operations@)) <= usize::MAX,
        !(column_mapping_mode is NoMapping) ==> current_max_column_id + columns_added(
            operations_view(operations@),
        ) <= i64::MAX,
    ensures
        exists|names: Seq<Seq<char>>|
            #![trigger column_mapping::all_uuids(names)]
            column_mapping::all_uuids(names) && names.len() == columns_added(operations_view(operations@))
                && match evolved(
                schema@,
                operations_view(operations@),
                column_mapping_mode,
                current_max_column_id as int,
                names,
            ) {
                Ok(e) => r matches Ok(t) && t.schema@ == e.schema && t.new_max_column_id
                    == new_max_id(current_max_column_id as int, e.max_id),
                Err(e) => error::failure(r) == Some(e),
            },
{
    let n: usize = match count_added(operations) {
        Some(n) => n,
        None => unreached(),
    };
    let names = random_names(n);
    let r = apply_operations_with(
        schema,
        operations,
        column_mapping_mode,
        current_max_column_id,
        &names,
    );
    assert(column_mapping::all_uuids(text::texts(names@)));
    r
}

/// The error for a change that a table does not allow because of its partition columns. They are
/// neither dropped nor renamed.
pub open spec fn change_fault_of(op: OperationView, partition: Seq<Seq<char>>) -> Option<ErrorView> {
    match op {
        OperationView::DropColumn { column } => if partition.contains(column) {
            Some(
                ErrorView::Generic(
                    "Cannot drop column '"@ + column + "': it is a partition column"@,
                ),
            )
        } else {
            None
        },
        OperationView::RenameColumn { column, .. } => if partition.contains(column) {
            Some(
                ErrorView::Generic(
                    "Cannot rename column '"@ + column + "': it is a partition column"@,
                ),
            )
        } else {
            None
        },
        _ => None,
    }
}

/// The error for the first of changes that drops or renames a partition column.
pub open spec fn partition_change_fault(ops: Seq<OperationView>, partition: Seq<Seq<char>>) -> Option<
    ErrorView,
>
    decreases ops.len(),
{
    if ops.len() == 0 {
        None
    } else if partition_change_fault(ops.drop_last(), partition) is Some {
        partition_change_fault(ops.drop_last(), partition)
    } else {
        change_fault_of(ops.last(), partition)
    }
}

/// An error among the first changes is the error of all of them.
proof fn lemma_partition_change_fault(ops: Seq<OperationView>, partition: Seq<Seq<char>>, n: int)
    requires
        0 <= n <= ops.len(),
        partition_change_fault(ops.take(n), partition) is Some,
    ensures
        partition_change_fault(ops, partition) == partition_change_fault(ops.take(n), partition),
    decreases ops.len(),
{
    if n == ops.len() {
        assert(ops.take(n) =~= ops);
    } else {
        assert(ops.drop_last().take(n) =~= ops.take(n));
        lemma_partition_change_fault(ops.drop_last(), partition, n);
    }
}

/// Checks that changes neither drop nor rename a partition column.
fn check_partition_columns(operations: &Vec<SchemaOperation>, partition: &Vec<String>) -> (r:
    DeltaResult<()>)
    ensures
        error::failure(r) == partition_change_fault(operations_view(operations@), text::texts(partition@)),
{
    let ghost ops = operations_view(operations@);
    let ghost p = text::texts(partition@);
    let mut i: usize = 0;
    assert(ops.take(0) =~= Seq::<OperationView>::empty());
    while i < operations.len()
        invariant
            i <= operations@.len(),
            ops == operations_view(operations@),
            p == text::texts(partition@),
            partition_change_fault(ops.take(i as int), p) is None,
        decreases operations.len() - i,
    {
        assert(ops[i as int] == operations@[i as int]@);
        assert(ops.take(i + 1).drop_last() =~= ops.take(i as int));
        assert(ops.take(i + 1).last() == ops[i as int]);
        let refused: Option<(&str, &String)> = match &operations[i] {
            SchemaOperation::DropColumn { column } => Some(("Cannot drop column '", column)),
            SchemaOperation::RenameColumn { column, .. } => Some(("Cannot rename column '", column)),
            _ => None,
        };
        if let Some((start, column)) = refused {
            if contains_text(partition, column.as_str()) {
                proof {
                    lemma_partition_change_fault(ops, p, i + 1);
                }
                return Err(
                    Error::Generic(text3(start, column.as_str(), "': it is a partition column")),
                );
            }
        }
        i += 1;
    }
    assert(ops.take(i as int) =~= ops);
    Ok(())
}

/// The highest identifier of a column of a table, as its properties give it; zero where they do not.
pub open spec fn max_column_id(c: ConfigView) -> i64 {
    let properties = c.properties.unknown_properties;
    if properties.dom().contains(COLUMN_MAPPING_MAX_COLUMN_ID@) {
        match text::parsed_signed(properties[COLUMN_MAPPING_MAX_COLUMN_ID@]) {
            Some(n) => n,
            None => 0,
        }
    } else {
        0
    }
}

/// The metadata of a table with another schema and, where it changed, another highest identifier.
pub open spec fn evolved_metadata(
    m: MetadataView,
    schema: Seq<FieldView>,
    new_max: Option<i64>,
) -> MetadataView {
    let with_schema = MetadataView { schema_string: schema_json::schema_json(schema), ..m };
    match new_max {
        None => with_schema,
        Some(id) => MetadataView {
            configuration: m.configuration.insert(
                COLUMN_MAPPING_MAX_COLUMN_ID@,
                text::signed_decimal(id as int),
            ),
            configuration_keys: column_mapping::keys_with(
                m.configuration,
                m.configuration_keys,
                COLUMN_MAPPING_MAX_COLUMN_ID@,
            ),
            ..with_schema
        },
    }
}

/// Collects changes of the schema of a table.
#[derive(Debug)]
pub struct AlterTableTransactionBuilder {
    pub snapshot: Snapshot,
    pub operations: Vec<SchemaOperation>,
}

/// The mathematical value of an [`AlterTableTransactionBuilder`].
pub struct AlterView {
    pub snapshot: SnapshotView,
    pub operations: Seq<OperationView>,
}

impl View for AlterTableTransactionBuilder {
    type V = AlterView;

    open spec fn view(&self) -> AlterView {
        AlterView {
            snapshot: self.snapshot@,
            operations: operations_view(self.operations@),
        }
    }
}

/// The transaction that makes the changes that were collected, or the first reason why there is
/// none. The physical names of the columns to come are given.
pub open spec fn altered<D>(
    b: AlterView,
    catalog_committer: bool,
    timestamp: i64,
    names: Seq<Seq<char>>,
) -> Result<TxnView<D>, ErrorView> {
    let c = b.snapshot.config;
    let base = max_column_id(c) as int;
    if b.operations.len() == 0 {
        Err(
            ErrorView::Generic(
                "At least one schema operation must be specified for ALTER TABLE"@,
            ),
        )
    } else if table_configuration::operation_fault(c, Operation::Write) is Some {
        Err(table_configuration::operation_fault(c, Operation::Write)->0)
    } else {
        match evolved(c.logical, b.operations, c.mode, base, names) {
            Err(e) => Err(e),
            Ok(e) => if partition_change_fault(b.operations, c.metadata.partition_columns) is Some {
                Err(partition_change_fault(b.operations, c.metadata.partition_columns)->0)
            } else {
                let m = evolved_metadata(c.metadata, e.schema, new_max_id(base, e.max_id));
                match table_configuration::config_after(c, Some((m, e.schema)), None, c.version) {
                    Err(e) => Err(e),
                    Ok(after) => Ok(
                        TxnView {
                            emit_metadata: true,
                            operation: Some(ALTER_TABLE_OPERATION@),
                            data_change: false,
                            ..transaction::fresh_txn(
                                Some(b.snapshot),
                                after,
                                catalog_committer,
                                timestamp,
                                None,
                            )
                        },
                    ),
                }
            },
        }
    }
}

/// What a change of a schema needs in order not to overflow: there are enough identifiers.
pub open spec fn identifiers_suffice(b: AlterView) -> bool {
    let c = b.snapshot.config;
    !(c.mode is NoMapping) ==> max_column_id(c) + columns_added(b.operations) <= i64::MAX
}

impl<D> Transaction<AlterTable, D> {
    /// A transaction that gives a table the configuration with a changed schema. It touches no data.
    pub fn try_new_alter_table(
        read_snapshot: Snapshot,
        evolved_config: TableConfiguration,
        is_catalog_committer: bool,
        commit_timestamp: i64,
    ) -> (r: DeltaResult<Transaction<AlterTable, D>>)
        ensures
            r matches Ok(t) && t@ == (TxnView {
                emit_metadata: true,
                operation: Some(ALTER_TABLE_OPERATION@),
                data_change: false,
                ..transaction::fresh_txn::<D>(
                    Some(read_snapshot@),
                    evolved_config@,
                    is_catalog_committer,
                    commit_timestamp,
                    None,
                )
            }),
    {
        let mut txn: Transaction<AlterTable, D> = Transaction::fresh(
            Some(read_snapshot),
            evolved_config,
            is_catalog_committer,
            commit_timestamp,
            None,
            AlterTable,
        );
        txn.should_emit_metadata = true;
        txn.operation = Some(ALTER_TABLE_OPERATION.to_owned());
        txn.data_change = false;
        Ok(txn)
    }
}

/// The highest identifier of a column of a table, as its properties give it; zero where they do not.
fn current_max_column_id(config: &TableConfiguration) -> (r: i64)
    ensures
        r == max_column_id(config@),
{
    match config.table_properties.unknown_properties.get(COLUMN_MAPPING_MAX_COLUMN_ID) {
        Some(v) => match parse_signed(v.as_str()) {
            Some(n) => n,
            None => 0,
        },
        None => 0,
    }
}

impl Snapshot {
    /// Starts to collect changes of the schema of the table.
    pub fn alter_table(self) -> (r: AlterTableTransactionBuilder)
        ensures
            r@ == (AlterView { snapshot: self@, operations: Seq::empty() }),
    {
        AlterTableTransactionBuilder::new(self)
    }
}

impl AlterTableTransactionBuilder {
    /// No changes yet.
    pub fn new(snapshot: Snapshot) -> (r: AlterTableTransactionBuilder)
        ensures
            r@ == (AlterView { snapshot: snapshot@, operations: Seq::empty() }),
    {
        let operations: Vec<SchemaOperation> = Vec::new();
        assert(operations_view(operations@) =~= Seq::<OperationView>::empty());
        AlterTableTransactionBuilder { snapshot, operations }
    }

    /// Appends a change.
    fn with_operation(self, op: SchemaOperation) -> (r: AlterTableTransactionBuilder)
        ensures
            r@ == (AlterView { operations: self@.operations.push(op@), ..self@ }),
    {
        let mut builder = self;
        let ghost before = builder@.operations;
        builder.operations.push(op);
        assert(builder@.operations =~= before.push(op@));
        builder
    }

    /// Adds a column at the top level. It must not be there yet, and must be able to hold nulls:
    /// existing data files have no value for it. With column mapping it gets an identifier and a
    /// physical name.
    pub fn add_column(self, field: StructField) -> (r: AlterTableTransactionBuilder)
        ensures
            r@ == (AlterView {
                operations: self@.operations.push(OperationView::AddColumn { field: field@ }),
                ..self@
            }),
    {
        self.with_operation(SchemaOperation::AddColumn { field })
    }

    /// Lets a column of the top level hold nulls.
    pub fn set_nullable(self, column: &str) -> (r: AlterTableTransactionBuilder)
        ensures
            r@ == (AlterView {
                operations: self@.operations.push(OperationView::SetNullable { column: column@ }),
                ..self@
            }),
    {
        self.with_operation(SchemaOperation::SetNullable { column: column.to_owned() })
    }

    /// Removes a column of the top level. Column mapping must be on, and the table must not be
    /// partitioned by the column.
    pub fn drop_column(self, column: &str) -> (r: AlterTableTransactionBuilder)
        ensures
            r@ == (AlterView {
                operations: self@.operations.push(OperationView::DropColumn { column: column@ }),
                ..self@
            }),
    {
        self.with_operation(SchemaOperation::DropColumn { column: column.to_owned() })
    }

    /// Gives a column of the top level another name. Column mapping must be on, by name, and the
    /// table must not be partitioned by the column. The physical name stays.
    pub fn rename_column(self, column: &str, new_name: &str) -> (r: AlterTableTransactionBuilder)
        ensures
            r@ == (AlterView {
                operations: self@.operations.push(
                    OperationView::RenameColumn { column: column@, new_name: new_name@ },
                ),
                ..self@
            }),
    {
        self.with_operation(
            SchemaOperation::RenameColumn {
                column: column.to_owned(),
                new_name: new_name.to_owned(),
            },
        )
    }

    /// The transaction that makes the changes, given the physical names of the columns to come and
    /// the time.
    pub fn build_with<D>(
        self,
        is_catalog_committer: bool,
        commit_timestamp: i64,
        names: &Vec<String>,
    ) -> (r: DeltaResult<Transaction<AlterTable, D>>)
        requires
            identifiers_suffice(self@),
            columns_added(self@.operations) <= names@.len(),
        ensures
            altered::<D>(self@, is_catalog_committer, commit_timestamp, text::texts(names@)) matches Ok(t)
                ==> (r matches Ok(u) && u@ == t),
            altered::<D>(self@, is_catalog_committer, commit_timestamp, text::texts(names@)) matches Err(e)
                ==> error::failure(r) == Some(e),
    {
        if self.operations.len() == 0 {
            return Err(
                Error::generic("At least one schema operation must be specified for ALTER TABLE"),
            );
        }
        let config = &self.snapshot.table_configuration;
        if let Err(e) = config.ensure_operation_supported(Operation::Write) {
            return Err(e);
        }
        let current: i64 = current_max_column_id(config);
        let result = match apply_operations_with(
            &config.logical_schema,
            &self.operations,
            config.column_mapping_mode,
            current,
            names,
        ) {
            Ok(r) => r,
            Err(e) => {
                return Err(e);
            },
        };
        if let Err(e) = check_partition_columns(
            &self.operations,
            &config.metadata.partition_columns,
        ) {
            return Err(e);
        }
        let mut metadata = match config.metadata.clone().with_schema(&result.schema) {
            Ok(m) => m,
            Err(e) => {
                return Err(e);
            },
        };
        if let Some(id) = result.new_max_column_id {
            let mut configuration = config.metadata.configuration.clone();
            configuration.insert(COLUMN_MAPPING_MAX_COLUMN_ID.to_owned(), signed_text(id));
            metadata = metadata.with_configuration(configuration);
        }
        let after = match TableConfiguration::try_new_from(
            config,
            Some((metadata, result.schema)),
            None,
            config.version,
        ) {
            Ok(c) => c,
            Err(e) => {
                return Err(e);
            },
        };
        Transaction::try_new_alter_table(
            self.snapshot,
            after,
            is_catalog_committer,
            commit_timestamp,
        )
    }

    /// Whether there are identifiers for all columns to come.
    pub fn has_enough_identifiers(&self) -> (r: bool)
        ensures
            r == (identifiers_suffice(self@) && columns_added(self@.operations) <= usize::MAX),
    {
        let config = &self.snapshot.table_configuration;
        match count_added(&self.operations) {
            Some(n) => match config.column_mapping_mode {
                ColumnMappingMode::NoMapping => true,
                _ => current_max_column_id(config) as i128 + n as i128 <= i64::MAX as i128,
            },
            None => false,
        }
    }

    /// The transaction that makes the changes. Columns to come get random physical names where
    /// column mapping is on.
    pub fn build<D>(self, is_catalog_committer: bool, commit_timestamp: i64) -> (r: DeltaResult<
        Transaction<AlterTable, D>,
    >)
        requires
            identifiers_suffice(self@),
            columns_added(self@.operations) <= usize::MAX,
        ensures
            exists|names: Seq<Seq<char>>|
                #![trigger column_mapping::all_uuids(names)]
                column_mapping::all_uuids(names) && names.len() == columns_added(self@.operations)
                    && match altered::<D>(self@, is_catalog_committer, commit_timestamp, names) {
                    Ok(t) => r matches Ok(u) && u@ == t,
                    Err(e) => error::failure(r) == Some(e),
                },
    {
        let n: usize = match count_added(&self.operations) {
            Some(n) => n,
            None => unreached(),
        };
        let names = random_names(n);
        let r = self.build_with(is_catalog_committer, commit_timestamp, &names);
        assert(column_mapping::all_uuids(text::texts(names@)));
        r
    }
}

} // verus!
