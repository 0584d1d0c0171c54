//! Identifiers for the rows of added files.
use vstd::prelude::*;

use crate::actions::{DomainMetadata, DomainMetadataView};
use crate::error::{self, DeltaResult, Error, ErrorView};
use crate::text::{self, signed_text, text3};

verus! {

/// The domain that holds the highest row identifier of a table.
pub const ROW_TRACKING_DOMAIN_NAME: &'static str = "delta.rowTracking";

/// The highest row identifier of a table without rows.
pub const DEFAULT_HIGH_WATER_MARK: i64 = -1;

/// The first row identifiers of files with the given numbers of records, and the highest row
/// identifier after them.
pub struct RowIdsView {
    pub base_row_ids: Seq<i64>,
    pub high_water_mark: i64,
}

/// The error for a file whose number of records is not known.
pub open spec fn missing_records_error() -> ErrorView {
    ErrorView::Generic(
        "numRecords must be present in Add actions when row tracking is enabled."@,
    )
}

/// The error for a file whose rows cannot get identifiers.
pub open spec fn row_id_overflow_error() -> ErrorView {
    ErrorView::Generic("Row ID high water mark does not fit in i64"@)
}

/// The row identifiers of files: those of a file follow those of the file before it.
pub open spec fn row_ids_of(high_water_mark: i64, records: Seq<Option<i64>>) -> Result<
    RowIdsView,
    ErrorView,
>
    decreases records.len(),
{
    if records.len() == 0 {
        Ok(RowIdsView { base_row_ids: Seq::empty(), high_water_mark })
    } else {
        match row_ids_of(high_water_mark, records.drop_last()) {
            Err(e) => Err(e),
            Ok(front) => match records.last() {
                None => Err(missing_records_error()),
                Some(n) => {
                    let base = front.high_water_mark + 1;
                    let after = front.high_water_mark + n;
                    if base > i64::MAX || after > i64::MAX || after < i64::MIN {
                        Err(row_id_overflow_error())
                    } else {
                        Ok(
                            RowIdsView {
                                base_row_ids: front.base_row_ids.push(base as i64),
                                high_water_mark: after as i64,
                            },
                        )
                    }
                },
            },
        }
    }
}

/// An error among the first files is the error of all of them.
proof fn lemma_row_ids_error(high_water_mark: i64, records: Seq<Option<i64>>, n: int)
    requires
        0 <= n <= records.len(),
        row_ids_of(high_water_mark, records.take(n)) is Err,
    ensures
        row_ids_of(high_water_mark, records) == row_ids_of(high_water_mark, records.take(n)),
    decreases records.len(),
{
    if n == records.len() {
        assert(records.take(n) =~= records);
    } else {
        assert(records.drop_last().take(n) =~= records.take(n));
        lemma_row_ids_error(high_water_mark, records.drop_last(), n);
    }
}

/// The rows of different files get different identifiers, all above those that were given before
/// and none above the new highest one.
pub proof fn row_id_ranges_are_disjoint(high_water_mark: i64, records: Seq<Option<i64>>)
    requires
        forall|i: int| 0 <= i < records.len() ==> ((#[trigger] records[i]) matches Some(n) && n >= 0),
        row_ids_of(high_water_mark, records) is Ok,
    ensures
        ({
            let ids = row_ids_of(high_water_mark, records)->Ok_0;
            &&& ids.base_row_ids.len() == records.len()
            &&& high_water_mark <= ids.high_water_mark
            &&& forall|i: int|
                0 <= i < records.len() ==> high_water_mark < #[trigger] ids.base_row_ids[i]
                    && ids.base_row_ids[i] + records[i]->0 - 1 <= ids.high_water_mark
            &&& forall|i: int, j: int|
                0 <= i < j < records.len() ==> #[trigger] ids.base_row_ids[i] + records[i]->0
                    <= #[trigger] ids.base_row_ids[j]
        }),
    decreases records.len(),
{
    if records.len() > 0 {
        let front = records.drop_last();
        assert forall|i: int| 0 <= i < front.len() implies ((#[trigger] front[i]) matches Some(n)
            && n >= 0) by {
            assert(front[i] == records[i]);
        }
        row_id_ranges_are_disjoint(high_water_mark, front);
        assert(records[records.len() - 1] matches Some(n) && n >= 0);
        let before = row_ids_of(high_water_mark, front)->Ok_0;
        let ids = row_ids_of(high_water_mark, records)->Ok_0;
        assert forall|i: int| 0 <= i < records.len() implies high_water_mark
            < #[trigger] ids.base_row_ids[i] && ids.base_row_ids[i] + records[i]->0 - 1
            <= ids.high_water_mark by {
            if i < front.len() {
                assert(ids.base_row_ids[i] == before.base_row_ids[i]);
                assert(front[i] == records[i]);
            }
        }
        assert forall|i: int, j: int| 0 <= i < j < records.len() implies #[trigger] ids.base_row_ids[i]
            + records[i]->0 <= #[trigger] ids.base_row_ids[j] by {
            assert(ids.base_row_ids[i] == before.base_row_ids[i]);
            assert(front[i] == records[i]);
            if j < front.len() {
                assert(ids.base_row_ids[j] == before.base_row_ids[j]);
            }
        }
    }
}

/// The rows of files that come one after the other: their numbers added up.
pub open spec fn rows_in(records: Seq<Option<i64>>) -> int
    decreases records.len(),
{
    if records.len() == 0 {
        0
    } else {
        rows_in(records.drop_last()) + (match records.last() {
            Some(n) => n as int,
            None => 0,
        })
    }
}

/// Row identifiers leave no gap: the first file starts right after the highest identifier that was
/// given before, each other file right after the rows of those before it, and the new highest
/// identifier is that of the last row. Files get identifiers exactly where the number of records of
/// each is known, as long as there are enough identifiers.
pub proof fn row_ids_leave_no_gap(high_water_mark: i64, records: Seq<Option<i64>>)
    requires
        forall|i: int| 0 <= i < records.len() ==> ((#[trigger] records[i]) matches Some(n) ==> n >= 0),
    ensures
        row_ids_of(high_water_mark, records) matches Ok(ids) ==> {
            &&& ids.base_row_ids.len() == records.len()
            &&& forall|i: int|
                0 <= i < records.len() ==> #[trigger] ids.base_row_ids[i] == high_water_mark + 1
                    + rows_in(records.take(i))
            &&& ids.high_water_mark == high_water_mark + rows_in(records)
        },
        (exists|i: int| 0 <= i < records.len() && #[trigger] records[i] is None) ==> row_ids_of(
            high_water_mark,
            records,
        ) is Err,
        (forall|i: int| 0 <= i < records.len() ==> #[trigger] records[i] is Some) && high_water_mark
            + rows_in(records) < i64::MAX ==> row_ids_of(high_water_mark, records) is Ok,
        rows_in(records) >= 0,
    decreases records.len(),
{
    if records.len() > 0 {
        let front = records.drop_last();
        let n = records.len() - 1;
        assert forall|i: int| 0 <= i < front.len() implies ((#[trigger] front[i]) matches Some(n)
            ==> n >= 0) by {
            assert(front[i] == records[i]);
        }
        row_ids_leave_no_gap(high_water_mark, front);
        assert(records[n] == records.last());
        if exists|i: int| 0 <= i < records.len() && #[trigger] records[i] is None {
            let i = choose|i: int| 0 <= i < records.len() && #[trigger] records[i] is None;
            if i < n {
                assert(front[i] is None);
            }
        }
        if forall|i: int| 0 <= i < records.len() ==> #[trigger] records[i] is Some {
            assert forall|i: int| 0 <= i < front.len() implies #[trigger] front[i] is Some by {
                assert(front[i] == records[i]);
            }
        }
        if let Ok(ids) = row_ids_of(high_water_mark, records) {
            let before = row_ids_of(high_water_mark, front)->Ok_0;
            assert forall|i: int| 0 <= i < records.len() implies #[trigger] ids.base_row_ids[i]
                == high_water_mark + 1 + rows_in(records.take(i)) by {
                if i < n {
                    assert(ids.base_row_ids[i] == before.base_row_ids[i]);
                    assert(front.take(i) =~= records.take(i));
                } else {
                    assert(records.take(i) =~= front);
                }
            }
        }
    }
}

/// The first row identifiers of files, and the highest row identifier after them.
#[derive(Debug, PartialEq, Eq)]
pub struct RowIds {
    pub base_row_ids: Vec<i64>,
    pub high_water_mark: i64,
}

impl View for RowIds {
    type V = RowIdsView;

    open spec fn view(&self) -> RowIdsView {
        RowIdsView {
            base_row_ids: self.base_row_ids@,
            high_water_mark: self.high_water_mark,
        }
    }
}

/// Gives the rows of files identifiers. Fails where the number of records of a file is not known or
/// where the identifiers do not fit.
pub fn assign_row_ids(high_water_mark: i64, records: &Vec<Option<i64>>) -> (r: DeltaResult<RowIds>)
    ensures
        row_ids_of(high_water_mark, records@) matches Ok(ids) ==> (r matches Ok(s) && s@ == ids),
        row_ids_of(high_water_mark, records@) matches Err(e) ==> error::failure(r) == Some(e),
{
    let mut base_row_ids: Vec<i64> = Vec::new();
    let mut mark: i64 = high_water_mark;
    let ghost all = records@;
    let mut i: usize = 0;
    assert(all.take(0) =~= Seq::<Option<i64>>::empty());
    while i < records.len()
        invariant
            i <= records@.len(),
            all == records@,
            row_ids_of(high_water_mark, all.take(i as int)) == Ok::<RowIdsView, ErrorView>(
                RowIdsView { base_row_ids: base_row_ids@, high_water_mark: mark },
            ),
        decreases records.len() - i,
    {
        assert(all.take(i + 1).drop_last() =~= all.take(i as int));
        assert(all.take(i + 1).last() == all[i as int]);
        match records[i] {
            None => {
                proof {
                    lemma_row_ids_error(high_water_mark, all, i + 1);
                }
                return Err(
                    Error::generic(
                        "numRecords must be present in Add actions when row tracking is enabled.",
                    ),
                );
            },
            Some(n) => match (mark.checked_add(1), mark.checked_add(n)) {
                (Some(base), Some(after)) => {
                    base_row_ids.push(base);
                    mark = after;
                },
                _ => {
                    proof {
                        lemma_row_ids_error(high_water_mark, all, i + 1);
                    }
                    return Err(Error::generic("Row ID high water mark does not fit in i64"));
                },
            },
        }
        i += 1;
    }
    assert(all.take(i as int) =~= all);
    Ok(RowIds { base_row_ids, high_water_mark: mark })
}

/// The action that sets the highest row identifier of a table.
pub open spec fn row_tracking_domain(high_water_mark: i64) -> DomainMetadataView {
    DomainMetadataView {
        domain: ROW_TRACKING_DOMAIN_NAME@,
        configuration: "{\"rowIdHighWaterMark\":"@ + text::signed_decimal(high_water_mark as int)
            + "}"@,
        removed: false,
    }
}

/// The action that sets the highest row identifier of a table is on the domain of row tracking, is no
/// removal, and holds the identifier as a number in JSON.
pub proof fn row_tracking_domain_holds_the_mark(high_water_mark: i64)
    ensures
        row_tracking_domain(high_water_mark).domain == "delta.rowTracking"@,
        !row_tracking_domain(high_water_mark).removed,
        row_tracking_domain(high_water_mark).configuration == "{\"rowIdHighWaterMark\":"@
            + text::signed_decimal(high_water_mark as int) + "}"@,
{
}

/// The action that sets the highest row identifier of a table.
pub fn row_tracking_domain_metadata(high_water_mark: i64) -> (r: DomainMetadata)
    ensures
        r@ == row_tracking_domain(high_water_mark),
{
    let digits = signed_text(high_water_mark);
    let configuration = text3("{\"rowIdHighWaterMark\":", digits.as_str(), "}");
    DomainMetadata::new(ROW_TRACKING_DOMAIN_NAME.to_owned(), configuration)
}

} // verus!
