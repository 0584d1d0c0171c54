//! The statistics that added files must have.
use vstd::prelude::*;

use crate::error::{self, DeltaResult, Error, ErrorView};
use crate::expressions::{self, ColumnName};
use crate::log_validation;
use crate::schema::{FieldView, StructType};
use crate::schema_transform::{self, walk_column};
use crate::table_features::ColumnMappingMode;
use crate::text::{text3, text5};

verus! {

/// The statistics of one column of a file.
#[derive(Debug, Clone, Copy, PartialEq, Eq)]
pub struct ColumnStats {
    pub null_count: Option<i64>,
    /// Whether there is a minimum.
    pub has_min: bool,
    /// Whether there is a maximum.
    pub has_max: bool,
}

/// The statistics of a file, for the columns that need them.
#[derive(Debug, PartialEq, Eq)]
pub struct FileStats {
    pub path: String,
    pub num_records: Option<i64>,
    /// The statistics of the columns that need them, in the order of those columns. Columns beyond
    /// the end have none.
    pub columns: Vec<ColumnStats>,
}

/// The mathematical value of [`FileStats`].
pub struct FileStatsView {
    pub path: Seq<char>,
    pub num_records: Option<i64>,
    pub columns: Seq<ColumnStats>,
}

impl View for FileStats {
    type V = FileStatsView;

    open spec fn view(&self) -> FileStatsView {
        FileStatsView {
            path: self.path@,
            num_records: self.num_records,
            columns: self.columns@,
        }
    }
}

/// The values of the statistics of a batch of files.
pub open spec fn batch_stats(s: Seq<FileStats>) -> Seq<FileStatsView> {
    Seq::new(s.len(), |i: int| s[i]@)
}

/// The values of the statistics of batches of files.
pub open spec fn all_stats(s: Seq<Vec<FileStats>>) -> Seq<Seq<FileStatsView>> {
    Seq::new(s.len(), |i: int| batch_stats(s[i]@))
}

/// Whether a file has the statistics of a column: the null count, and either a minimum and a maximum
/// or nothing but nulls.
pub open spec fn has_stats(f: FileStatsView, k: int) -> bool {
    k < f.columns.len() && f.columns[k].null_count is Some && ((f.columns[k].has_min
        && f.columns[k].has_max) || f.columns[k].null_count == f.num_records)
}

/// The error for a file without the statistics of a column.
pub open spec fn missing_stats_error(column: Seq<Seq<char>>, path: Seq<char>) -> ErrorView {
    ErrorView::StatsValidation(
        "Required column '"@ + expressions::column_text(column) + "' has no stats in file '"@ + path + "'"@,
    )
}

/// The first column whose statistics a file lacks, as an error.
pub open spec fn file_stats_fault(columns: Seq<Seq<Seq<char>>>, f: FileStatsView) -> Option<
    ErrorView,
> {
    log_validation::first_fault(
        |k: int|
            if has_stats(f, k) {
                None
            } else {
                Some(missing_stats_error(columns[k], f.path))
            },
        0,
        columns.len() as int,
    )
}

/// The first file of a batch that lacks statistics, as an error.
pub open spec fn batch_stats_fault(
    columns: Seq<Seq<Seq<char>>>,
    batch: Seq<FileStatsView>,
) -> Option<ErrorView> {
    log_validation::first_fault(|i: int| file_stats_fault(columns, batch[i]), 0, batch.len() as int)
}

/// The error for a column that is not in a schema.
pub open spec fn required_column_error(column: Seq<Seq<char>>) -> ErrorView {
    ErrorView::InternalError(
        "Required column '"@ + expressions::column_text(column) + "' not found in table schema"@,
    )
}

/// The first of some columns that is not in a schema, as an error.
pub open spec fn required_columns_fault(s: Seq<FieldView>, columns: Seq<Seq<Seq<char>>>) -> Option<
    ErrorView,
> {
    log_validation::first_fault(
        |k: int|
            if schema_transform::walked(s, columns[k], ColumnMappingMode::NoMapping) is Some {
                None
            } else {
                Some(required_column_error(columns[k]))
            },
        0,
        columns.len() as int,
    )
}

/// Why added files do not have the statistics that a table needs.
pub open spec fn added_stats_fault(
    s: Seq<FieldView>,
    columns: Seq<Seq<Seq<char>>>,
    batches: Seq<Seq<FileStatsView>>,
) -> Option<ErrorView> {
    match required_columns_fault(s, columns) {
        Some(e) => Some(e),
        None => log_validation::first_fault(
            |b: int| batch_stats_fault(columns, batches[b]),
            0,
            batches.len() as int,
        ),
    }
}

/// Files pass exactly where the columns are in the schema and every file has the statistics of every
/// column.
pub proof fn accepted_files_have_stats(
    s: Seq<FieldView>,
    columns: Seq<Seq<Seq<char>>>,
    batches: Seq<Seq<FileStatsView>>,
)
    ensures
        added_stats_fault(s, columns, batches) is None <==> {
            &&& forall|k: int|
                0 <= k < columns.len() ==> schema_transform::walked(
                    s,
                    #[trigger] columns[k],
                    ColumnMappingMode::NoMapping,
                ) is Some
            &&& forall|b: int, i: int, k: int|
                0 <= b < batches.len() && 0 <= i < batches[b].len() && 0 <= k < columns.len()
                    ==> #[trigger] has_stats(batches[b][i], k)
        },
{
    let in_schema = |k: int|
        if schema_transform::walked(s, columns[k], ColumnMappingMode::NoMapping) is Some {
            None
        } else {
            Some(required_column_error(columns[k]))
        };
    log_validation::lemma_first_fault(in_schema, 0, columns.len() as int);
    assert((required_columns_fault(s, columns) is None) == forall|k: int|
        0 <= k < columns.len() ==> schema_transform::walked(
            s,
            #[trigger] columns[k],
            ColumnMappingMode::NoMapping,
        ) is Some) by {
        if required_columns_fault(s, columns) is None {
            assert forall|k: int| 0 <= k < columns.len() implies schema_transform::walked(
                s,
                #[trigger] columns[k],
                ColumnMappingMode::NoMapping,
            ) is Some by {
                assert(in_schema(k) is None);
            }
        }
    }
    let per_batch = |b: int| batch_stats_fault(columns, batches[b]);
    log_validation::lemma_first_fault(per_batch, 0, batches.len() as int);
    if log_validation::first_fault(per_batch, 0, batches.len() as int) is None {
        assert forall|b: int, i: int, k: int|
            0 <= b < batches.len() && 0 <= i < batches[b].len() && 0 <= k < columns.len() implies
            #[trigger] has_stats(batches[b][i], k) by {
            assert(per_batch(b) is None);
            let per_file = |i: int| file_stats_fault(columns, batches[b][i]);
            log_validation::lemma_first_fault(per_file, 0, batches[b].len() as int);
            assert(per_file(i) is None);
            let f = batches[b][i];
            let per_column = |k: int|
                if has_stats(f, k) {
                    None
                } else {
                    Some(missing_stats_error(columns[k], f.path))
                };
            log_validation::lemma_first_fault(per_column, 0, columns.len() as int);
            assert(per_column(k) is None);
        }
    } else {
        let b = choose|b: int| 0 <= b < batches.len() && (#[trigger] per_batch(b)) is Some;
        let per_file = |i: int| file_stats_fault(columns, batches[b][i]);
        log_validation::lemma_first_fault(per_file, 0, batches[b].len() as int);
        let i = choose|i: int| 0 <= i < batches[b].len() && (#[trigger] per_file(i)) is Some;
        let f = batches[b][i];
        let per_column = |k: int|
            if has_stats(f, k) {
                None
            } else {
                Some(missing_stats_error(columns[k], f.path))
            };
        log_validation::lemma_first_fault(per_column, 0, columns.len() as int);
        let k = choose|k: int| 0 <= k < columns.len() && (#[trigger] per_column(k)) is Some;
        assert(!has_stats(batches[b][i], k));
    }
}

impl FileStats {
    /// Whether the file has the statistics of the column at a position.
    pub fn has_stats(&self, k: usize) -> (r: bool)
        ensures
            r == has_stats(self@, k as int),
    {
        if k >= self.columns.len() {
            return false;
        }
        let c: ColumnStats = self.columns[k];
        match c.null_count {
            None => false,
            Some(nulls) => (c.has_min && c.has_max) || match self.num_records {
                Some(n) => n == nulls,
                None => false,
            },
        }
    }
}

/// Checks that a file has the statistics of columns.
fn verify_file(columns: &Vec<ColumnName>, file: &FileStats) -> (r: DeltaResult<()>)
    ensures
        error::failure(r) == file_stats_fault(expressions::columns_view(columns@), file@),
{
    let ghost c = expressions::columns_view(columns@);
    let ghost f = file@;
    let ghost fault = |k: int|
        if has_stats(f, k) {
            None
        } else {
            Some(missing_stats_error(c[k], f.path))
        };
    let mut k: usize = 0;
    while k < columns.len()
        invariant
            k <= columns@.len(),
            c == expressions::columns_view(columns@),
            f == file@,
            fault == |k: int|
                if has_stats(f, k) {
                    None
                } else {
                    Some(missing_stats_error(c[k], f.path))
                },
            file_stats_fault(c, f) == log_validation::first_fault(fault, k as int, c.len() as int),
        decreases columns.len() - k,
    {
        assert(c[k as int] == columns@[k as int]@);
        assert(fault(k as int) == (if has_stats(f, k as int) {
            None
        } else {
            Some(missing_stats_error(c[k as int], f.path))
        }));
        if !file.has_stats(k) {
            let name = columns[k].to_string();
            return Err(
                Error::StatsValidation(
                    text5(
                        "Required column '",
                        name.as_str(),
                        "' has no stats in file '",
                        file.path.as_str(),
                        "'",
                    ),
                ),
            );
        }
        k += 1;
    }
    Ok(())
}

/// Checks that the files of a batch have the statistics of columns.
fn verify_batch(columns: &Vec<ColumnName>, batch: &Vec<FileStats>) -> (r: DeltaResult<()>)
    ensures
        error::failure(r) == batch_stats_fault(expressions::columns_view(columns@), batch_stats(batch@)),
{
    let ghost c = expressions::columns_view(columns@);
    let ghost s = batch_stats(batch@);
    let ghost fault = |i: int| file_stats_fault(c, s[i]);
    let mut i: usize = 0;
    while i < batch.len()
        invariant
            i <= batch@.len(),
            c == expressions::columns_view(columns@),
            s == batch_stats(batch@),
            fault == |i: int| file_stats_fault(c, s[i]),
            batch_stats_fault(c, s) == log_validation::first_fault(fault, i as int, s.len() as int),
        decreases batch.len() - i,
    {
        assert(fault(i as int) == file_stats_fault(c, batch@[i as int]@));
        if let Err(e) = verify_file(columns, &batch[i]) {
            return Err(e);
        }
        i += 1;
    }
    Ok(())
}

/// Checks that added files have the statistics of columns, which are those of the data files. Fails
/// where a column is not in the schema, or where a file lacks the null count of a column, or lacks
/// its minimum or maximum although it has other values than nulls.
pub fn verify_stats(
    schema: &StructType,
    columns: &Vec<ColumnName>,
    batches: &Vec<Vec<FileStats>>,
) -> (r: DeltaResult<()>)
    ensures
        error::failure(r) == added_stats_fault(schema@, expressions::columns_view(columns@), all_stats(batches@)),
{
    let ghost s = schema@;
    let ghost c = expressions::columns_view(columns@);
    let ghost all = all_stats(batches@);
    let ghost in_schema = |k: int|
        if schema_transform::walked(s, c[k], ColumnMappingMode::NoMapping) is Some {
            None
        } else {
            Some(required_column_error(c[k]))
        };
    let mut k: usize = 0;
    while k < columns.len()
        invariant
            k <= columns@.len(),
            s == schema@,
            c == expressions::columns_view(columns@),
            in_schema == |k: int|
                if schema_transform::walked(s, c[k], ColumnMappingMode::NoMapping) is Some {
                    None
                } else {
                    Some(required_column_error(c[k]))
                },
            required_columns_fault(s, c) == log_validation::first_fault(in_schema, k as int, c.len() as int),
        decreases columns.len() - k,
    {
        assert(c[k as int] == columns@[k as int]@);
        assert(in_schema(k as int) == (if schema_transform::walked(
            s,
            c[k as int],
            ColumnMappingMode::NoMapping,
        ) is Some {
            None
        } else {
            Some(required_column_error(c[k as int]))
        }));
        if walk_column(schema, columns[k].path(), ColumnMappingMode::NoMapping).is_none() {
            let name = columns[k].to_string();
            return Err(
                Error::InternalError(
                    text3("Required column '", name.as_str(), "' not found in table schema"),
                ),
            );
        }
        k += 1;
    }
    let ghost fault = |b: int| batch_stats_fault(c, all[b]);
    let mut b: usize = 0;
    while b < batches.len()
        invariant
            b <= batches@.len(),
            s == schema@,
            c == expressions::columns_view(columns@),
            all == all_stats(batches@),
            required_columns_fault(s, c) is None,
            fault == |b: int| batch_stats_fault(c, all[b]),
            added_stats_fault(s, c, all) == log_validation::first_fault(fault, b as int, all.len() as int),
        decreases batches.len() - b,
    {
        assert(fault(b as int) == batch_stats_fault(c, batch_stats(batches@[b as int]@)));
        if let Err(e) = verify_batch(columns, &batches[b]) {
            return Err(e);
        }
        b += 1;
    }
    Ok(())
}

/// A file has the statistics of a column exactly where the number of nulls is known, and either the
/// smallest and the largest value are known too or there is nothing but nulls.
pub proof fn column_stats_are_complete_or_all_null(f: FileStatsView, k: int)
    requires
        0 <= k,
    ensures
        has_stats(f, k) <==> {
            &&& k < f.columns.len()
            &&& f.columns[k].null_count matches Some(n) && ((f.columns[k].has_min
                && f.columns[k].has_max) || f.num_records == Some(n))
        },
{
}

} // verus!
