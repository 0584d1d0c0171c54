//! Transactions on existing tables.
use vstd::prelude::*;

use crate::actions::{DeletionVectorDescriptor, DvView};
use crate::dv_update::{self, check_matched, match_batches, ScanBatch, ScanBatchView};
use crate::error::{self, DeltaResult, Error, ErrorView};
use crate::expressions::{self, ColumnName};
use crate::snapshot::{self, Snapshot, SnapshotView};
use crate::string_map::StringMap;
use crate::table_configuration;
use crate::table_features::{FeatureView, Operation, TableFeature};
use crate::transaction::{self, ExistingTable, FilteredEngineData, Transaction, TxnView};

verus! {

/// What a scan says of some files: a batch of rows, one for each file.
#[derive(Debug)]
pub struct ScanMetadata<D> {
    pub scan_files: ScanBatch<D>,
}

/// The batches of a scan up to its first error, and that error.
pub open spec fn scanned<D>(s: Seq<DeltaResult<ScanBatch<D>>>) -> (
    Seq<ScanBatchView<D>>,
    Option<ErrorView>,
)
    decreases s.len(),
{
    if s.len() == 0 {
        (Seq::empty(), None)
    } else {
        let front = scanned(s.drop_last());
        match front.1 {
            Some(_) => front,
            None => match s.last() {
                Ok(b) => (front.0.push(b@), None),
                Err(e) => (front.0, Some(e@)),
            },
        }
    }
}

/// An error early in a scan is its first error.
proof fn lemma_scanned_error<D>(s: Seq<DeltaResult<ScanBatch<D>>>, n: int)
    requires
        0 <= n <= s.len(),
        scanned(s.take(n)).1 is Some,
    ensures
        scanned(s) == scanned(s.take(n)),
    decreases s.len(),
{
    if n == s.len() {
        assert(s.take(n) =~= s);
    } else {
        assert(s.drop_last().take(n) =~= s.take(n));
        lemma_scanned_error(s.drop_last(), n);
    }
}

/// The batches of a scan up to its first error, and that error.
fn take_scanned<D>(items: Vec<DeltaResult<ScanBatch<D>>>) -> (r: (Vec<ScanBatch<D>>, Option<Error>))
    ensures
        dv_update::scan_batches_view(r.0@) == scanned(items@).0,
        r.1 is Some <==> scanned(items@).1 is Some,
        r.1 matches Some(e) ==> scanned(items@).1 == Some(e@),
{
    let ghost all = items@;
    let mut out: Vec<ScanBatch<D>> = Vec::new();
    let n: usize = items.len();
    assert(all.take(0) =~= Seq::<DeltaResult<ScanBatch<D>>>::empty());
    assert(dv_update::scan_batches_view(out@) =~= Seq::<ScanBatchView<D>>::empty());
    for item in it: items
        invariant
            it.seq() == all,
            all.len() == n,
            scanned(all.take(it.index())) == (dv_update::scan_batches_view(out@), None::<ErrorView>),
    {
        let ghost i = it.index();
        let ghost before = dv_update::scan_batches_view(out@);
        assert(item == all[i]);
        assert(all.take(i + 1).drop_last() =~= all.take(i));
        assert(all.take(i + 1).last() == all[i]);
        match item {
            Ok(batch) => {
                out.push(batch);
                assert(dv_update::scan_batches_view(out@) =~= before.push(batch@));
            },
            Err(e) => {
                proof {
                    lemma_scanned_error(all, i + 1);
                }
                return (out, Some(e));
            },
        }
    }
    assert(all.take(n as int) =~= all);
    (out, None)
}

/// Why a table cannot have deletion vectors.
pub open spec fn dv_table_fault(read: Option<SnapshotView>) -> Option<ErrorView> {
    match read {
        None => Some(ErrorView::Generic("Deletion vector operations require an existing table"@)),
        Some(s) => if table_configuration::feature_supported(s.config.protocol, FeatureView::DeletionVectors) {
            None
        } else {
            Some(
                ErrorView::Unsupported(
                    "Deletion vector operations require reader version 3, writer version 7, and the 'deletionVectors' feature in both reader and writer features"@,
                ),
            )
        },
    }
}

/// Why files do not get new deletion vectors: the first error of the scan, or that the new vectors
/// and the files do not go together. The paths of the new vectors are given.
pub open spec fn dv_update_fault<D>(
    items: Seq<DeltaResult<ScanBatch<D>>>,
    updates: Map<Seq<char>, DvView>,
    keys: Seq<Seq<char>>,
) -> Option<ErrorView> {
    let (batches, err) = scanned(items);
    match err {
        Some(e) => Some(e),
        None => dv_update::dv_match_fault(keys, dv_update::matched_paths(batches, updates)),
    }
}

/// A transaction on a valid table is valid, and its commit makes the next version.
pub proof fn existing_transactions_are_valid<D>(
    s: SnapshotView,
    catalog_committer: bool,
    timestamp: i64,
    clustering: Option<Seq<Seq<Seq<char>>>>,
)
    requires
        snapshot::snapshot_valid(s),
        s.config.version < u64::MAX,
    ensures
        ({
            let t = transaction::fresh_txn::<D>(
                Some(s),
                s.config,
                catalog_committer,
                timestamp,
                clustering,
            );
            &&& transaction::txn_valid(t)
            &&& !transaction::creates_table(t)
            &&& transaction::commit_version_of(t) == s.config.version + 1
        }),
{
}

impl<D> Transaction<ExistingTable, D> {
    /// A transaction on a table. The physical clustering columns are those of the table, if it is
    /// clustered, and the time is in milliseconds since the Unix epoch. Fails where writing to the
    /// table is not supported.
    pub fn try_new_existing_table(
        snapshot: Snapshot,
        is_catalog_committer: bool,
        physical_clustering_columns: Option<Vec<ColumnName>>,
        commit_timestamp: i64,
    ) -> (r: DeltaResult<Transaction<ExistingTable, D>>)
        ensures
            table_configuration::operation_fault(snapshot@.config, Operation::Write) matches Some(e) ==> error::failure(r)
                == Some(e),
            table_configuration::operation_fault(snapshot@.config, Operation::Write) is None ==> (r matches Ok(t) && t@
                == transaction::fresh_txn::<D>(
                Some(snapshot@),
                snapshot@.config,
                is_catalog_committer,
                commit_timestamp,
                expressions::opt_columns(physical_clustering_columns),
            )),
    {
        if let Err(e) = snapshot.table_configuration.ensure_operation_supported(Operation::Write) {
            return Err(e);
        }
        let config = snapshot.table_configuration.clone();
        Ok(
            Transaction::fresh(
                Some(snapshot),
                config,
                is_catalog_committer,
                commit_timestamp,
                physical_clustering_columns,
                ExistingTable,
            ),
        )
    }

    /// Marks the transaction as a blind append: it only adds files and does not depend on what the
    /// table holds.
    pub fn with_blind_append(self) -> (r: Transaction<ExistingTable, D>)
        ensures
            r@ == (TxnView { blind_append: true, ..self@ }),
    {
        let mut txn = self;
        txn.is_blind_append = true;
        txn
    }

    /// Sets what the commit says that it does.
    pub fn with_operation(self, operation: String) -> (r: Transaction<ExistingTable, D>)
        ensures
            r@ == (TxnView { operation: Some(operation@), ..self@ }),
    {
        let mut txn = self;
        txn.operation = Some(operation);
        txn
    }

    /// Removes a domain. Where the table has it, the commit holds a tombstone with its last
    /// configuration; where not, nothing happens. Each domain can appear once, set or removed; the
    /// commit checks that.
    pub fn with_domain_metadata_removed(self, domain: String) -> (r: Transaction<ExistingTable, D>)
        ensures
            r@ == (TxnView { removals: self@.removals.push(domain@), ..self@ }),
    {
        let mut txn = self;
        let ghost before = txn@.removals;
        txn.user_domain_removals.push(domain);
        assert(txn@.removals =~= before.push(domain@));
        txn
    }

    /// Removes the selected files of a batch. Its rows are those of a scan.
    pub fn remove_files(&mut self, remove_metadata: FilteredEngineData<D>)
        ensures
            final(self)@ == (TxnView {
                removes: old(self)@.removes.push(remove_metadata@),
                ..old(self)@
            }),
    {
        let ghost before = self@.removes;
        self.remove_files_metadata.push(remove_metadata);
        assert(self@.removes =~= before.push(remove_metadata@));
    }

    /// The batches of rows of a scan.
    pub fn scan_metadata_to_engine_data(scan_metadata: Vec<DeltaResult<ScanMetadata<D>>>) -> (r: Vec<
        DeltaResult<ScanBatch<D>>,
    >)
        ensures
            r@.len() == scan_metadata@.len(),
            forall|i: int|
                #![trigger r@[i]]
                0 <= i < r@.len() ==> r@[i] == (match scan_metadata@[i] {
                    Ok(m) => Ok::<ScanBatch<D>, Error>(m.scan_files),
                    Err(e) => Err(e),
                }),
    {
        let ghost all = scan_metadata@;
        let n: usize = scan_metadata.len();
        let mut out: Vec<DeltaResult<ScanBatch<D>>> = Vec::new();
        for item in it: scan_metadata
            invariant
                it.seq() == all,
                all.len() == n,
                out@.len() == it.index(),
                forall|i: int|
                    #![trigger out@[i]]
                    0 <= i < out@.len() ==> out@[i] == (match all[i] {
                        Ok(m) => Ok::<ScanBatch<D>, Error>(m.scan_files),
                        Err(e) => Err(e),
                    }),
        {
            assert(item == all[it.index()]);
            match item {
                Ok(m) => {
                    out.push(Ok(m.scan_files));
                },
                Err(e) => {
                    out.push(Err(e));
                },
            }
        }
        out
    }

    /// Gives files of the table new deletion vectors: the selected rows of the scan whose paths have
    /// one are staged. Fails where the table cannot have deletion vectors, where the scan fails,
    /// where there are not as many such rows as new vectors, or where there is no such row for one
    /// of the new vectors. Can be called for several sets of files.
    pub fn update_deletion_vectors(
        &mut self,
        new_dv_descriptors: StringMap<DeletionVectorDescriptor>,
        existing_data_files: Vec<DeltaResult<ScanBatch<D>>>,
    ) -> (r: DeltaResult<()>)
        ensures
            dv_table_fault(old(self)@.read) matches Some(e) ==> error::failure(r) == Some(e)
                && final(self)@ == old(self)@,
            dv_table_fault(old(self)@.read) is None ==> error::failure(r) == dv_update_fault(
                existing_data_files@,
                new_dv_descriptors@,
                new_dv_descriptors.keys(),
            ) && final(self)@ == (TxnView {
                dv_files: old(self)@.dv_files + dv_update::matched_batches(
                    scanned(existing_data_files@).0,
                    new_dv_descriptors@,
                ),
                ..old(self)@
            }),
    {
        match &self.read_snapshot {
            None => {
                return Err(
                    Error::generic("Deletion vector operations require an existing table"),
                );
            },
            Some(s) => {
                if !s.table_configuration.is_feature_supported(&TableFeature::DeletionVectors) {
                    return Err(
                        Error::unsupported(
                            "Deletion vector operations require reader version 3, writer version 7, and the 'deletionVectors' feature in both reader and writer features",
                        ),
                    );
                }
            },
        }
        let (batches, stopped) = take_scanned(existing_data_files);
        let matched = match_batches(batches, &new_dv_descriptors, &mut self.dv_matched_files);
        match stopped {
            Some(e) => Err(e),
            None => check_matched(&new_dv_descriptors, &matched),
        }
    }
}

/// A scan is used up to its first error: where there is none, all of its batches in order; else those
/// before the error.
pub proof fn scans_are_used_up_to_their_first_error<D>(s: Seq<DeltaResult<ScanBatch<D>>>)
    ensures
        scanned(s).1 is None <==> forall|i: int| 0 <= i < s.len() ==> (#[trigger] s[i]) is Ok,
        scanned(s).0.len() <= s.len(),
        scanned(s).1 is None ==> scanned(s).0.len() == s.len(),
        forall|i: int|
            0 <= i < scanned(s).0.len() ==> (s[i] matches Ok(b) && b@ == #[trigger] scanned(s).0[i]),
        scanned(s).1 matches Some(e) ==> scanned(s).0.len() < s.len() && (
        s[scanned(s).0.len() as int] matches Err(f) && f@ == e),
    decreases s.len(),
{
    if s.len() > 0 {
        let front = s.drop_last();
        scans_are_used_up_to_their_first_error(front);
        let before = scanned(front);
        assert forall|i: int| 0 <= i < front.len() implies front[i] == s[i] by {}
        assert(s[s.len() - 1] == s.last());
        if scanned(s).1 is None {
            assert forall|i: int| 0 <= i < s.len() implies (#[trigger] s[i]) is Ok by {
                if i < front.len() {
                    assert(front[i] is Ok);
                }
            }
        }
        if forall|i: int| 0 <= i < s.len() ==> (#[trigger] s[i]) is Ok {
            assert forall|i: int| 0 <= i < front.len() implies (#[trigger] front[i]) is Ok by {
                assert(s[i] is Ok);
            }
            assert(s[s.len() - 1] is Ok);
        }
        assert forall|i: int| 0 <= i < scanned(s).0.len() implies (s[i] matches Ok(b) && b@
            == #[trigger] scanned(s).0[i]) by {
            if i < before.0.len() {
                assert(scanned(s).0[i] == before.0[i]);
            }
        }
    }
}

/// Deletion vectors can be changed exactly on an existing table that supports them, for readers and
/// for writers.
pub proof fn vectors_need_a_table_that_supports_them(read: Option<SnapshotView>)
    ensures
        dv_table_fault(read) is None <==> (read matches Some(s)
            && table_configuration::feature_supported(
            s.config.protocol,
            FeatureView::DeletionVectors,
        )),
{
}

} // verus!
