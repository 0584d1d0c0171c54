//! What holds of every commit.
use vstd::prelude::*;

use crate::actions::SetTransactionView;
use crate::commit;
use crate::commit_plan::{self, ActionView, InputsView};
use crate::domain_changes;
use crate::error::ErrorView;
use crate::evaluation::{self, EditView, Source};
use crate::file_stats::{self, FileStatsView};
use crate::log_validation;
use crate::row_tracking;
use crate::schema::FieldView;
use crate::table_configuration::{self, ConfigView};
use crate::table_features::FeatureView;
use crate::text;
use crate::transaction::{self, TxnView};

verus! {

/// The commit info is the first action of every commit, and there is no other.
pub proof fn commit_info_comes_first<D>(
    t: TxnView<D>,
    inputs: InputsView,
    txn_id: Seq<char>,
    log_root: Result<Seq<char>, ErrorView>,
)
    ensures
        commit::plan_of(t, inputs, txn_id, log_root) matches Ok(p) ==> p.actions.len() > 0
            && p.actions[0] is CommitInfo && forall|i: int|
            0 < i < p.actions.len() ==> !((#[trigger] p.actions[i]) is CommitInfo),
{
}

/// A blind append only adds files: its commit holds at least one add action, no remove action and
/// none of new deletion vectors, and its commit info says that it is a blind append.
pub proof fn blind_appends_only_add<D>(
    t: TxnView<D>,
    inputs: InputsView,
    txn_id: Seq<char>,
    log_root: Result<Seq<char>, ErrorView>,
)
    requires
        t.blind_append,
    ensures
        commit::plan_of(t, inputs, txn_id, log_root) matches Ok(p) ==> {
            &&& p.actions[0] matches ActionView::CommitInfo(info) && info.is_blind_append == Some(
                true,
            )
            &&& exists|i: int| 0 <= i < p.actions.len() && (#[trigger] p.actions[i]) is Add
            &&& forall|i: int|
                0 <= i < p.actions.len() ==> !((#[trigger] p.actions[i]) is Remove) && !(
                p.actions[i] is RemoveUpdated) && !(p.actions[i] is AddUpdated)
        },
{
    if let Ok(p) = commit::plan_of(t, inputs, txn_id, log_root) {
        let k = 1 + commit::protocol_action(commit_plan::new_protocol_of(t)).len() + commit::metadata_action(
            commit_plan::new_metadata_of(t),
        ).len();
        assert(p.actions[k as int] is Add);
    }
}

/// A commit holds a protocol action exactly where the transaction is to emit one, and a metadata
/// action exactly where it is to emit one, and both stand before every other action but the commit
/// info.
pub proof fn table_actions_come_early<D>(
    t: TxnView<D>,
    inputs: InputsView,
    txn_id: Seq<char>,
    log_root: Result<Seq<char>, ErrorView>,
)
    ensures
        commit::plan_of(t, inputs, txn_id, log_root) matches Ok(p) ==> {
            &&& t.emit_protocol <==> exists|i: int|
                0 <= i < p.actions.len() && (#[trigger] p.actions[i]) is Protocol
            &&& t.emit_metadata <==> exists|i: int|
                0 <= i < p.actions.len() && (#[trigger] p.actions[i]) is Metadata
            &&& forall|i: int|
                0 <= i < p.actions.len() && ((#[trigger] p.actions[i]) is Protocol
                    || p.actions[i] is Metadata) ==> i <= 2
        },
{
    if let Ok(p) = commit::plan_of(t, inputs, txn_id, log_root) {
        if t.emit_protocol {
            assert(p.actions[1] is Protocol);
            if t.emit_metadata {
                assert(p.actions[2] is Metadata);
            }
        } else if t.emit_metadata {
            assert(p.actions[1] is Metadata);
        }
    }
}

/// A commit goes through a catalog exactly where a catalog manages the table.
pub proof fn catalog_tables_go_through_catalog<D>(
    t: TxnView<D>,
    inputs: InputsView,
    txn_id: Seq<char>,
    log_root: Result<Seq<char>, ErrorView>,
)
    ensures
        commit::plan_of(t, inputs, txn_id, log_root) is Ok ==> t.catalog_committer == table_configuration::catalog_managed(
            t.config.protocol,
        ),
{
}

/// The commit that creates a table is of version zero and neither removes files nor changes deletion
/// vectors, and before it there is neither protocol nor metadata.
pub proof fn tables_start_at_zero<D>(
    t: TxnView<D>,
    inputs: InputsView,
    txn_id: Seq<char>,
    log_root: Result<Seq<char>, ErrorView>,
)
    requires
        transaction::creates_table(t),
    ensures
        commit::plan_of(t, inputs, txn_id, log_root) matches Ok(p) ==> {
            &&& p.metadata.version == 0
            &&& p.metadata.read_protocol is None && p.metadata.read_metadata is None
            &&& forall|i: int|
                0 <= i < p.actions.len() ==> !((#[trigger] p.actions[i]) is Remove) && !(
                p.actions[i] is RemoveUpdated) && !(p.actions[i] is AddUpdated)
        },
{
}

/// Whether a commit adds a batch of files.
pub open spec fn adds_batch(a: Seq<ActionView>, b: int) -> bool {
    exists|i: int|
        0 <= i < a.len() && (#[trigger] a[i] matches ActionView::Add { batch, .. } && batch == b)
}

/// Whether a commit removes a batch of files.
pub open spec fn removes_batch(a: Seq<ActionView>, b: int) -> bool {
    exists|i: int| 0 <= i < a.len() && #[trigger] a[i] == (ActionView::Remove { batch: b })
}

/// Whether a commit first removes and later adds a batch of files with new deletion vectors.
pub open spec fn updates_batch(a: Seq<ActionView>, b: int) -> bool {
    exists|i: int, j: int|
        0 <= i < j < a.len() && #[trigger] a[i] == (ActionView::RemoveUpdated { batch: b })
            && #[trigger] a[j] == (ActionView::AddUpdated { batch: b })
}

/// Everything that was staged is in the commit: each batch of added files, each batch of removed
/// files, and each batch of files with new deletion vectors, first to remove and then to add them.
pub proof fn every_batch_is_committed<D>(
    t: TxnView<D>,
    inputs: InputsView,
    txn_id: Seq<char>,
    log_root: Result<Seq<char>, ErrorView>,
)
    ensures
        commit::plan_of(t, inputs, txn_id, log_root) matches Ok(p) ==> {
            &&& forall|b: int| 0 <= b < t.adds.len() ==> #[trigger] adds_batch(p.actions, b)
            &&& forall|b: int| 0 <= b < t.removes.len() ==> #[trigger] removes_batch(p.actions, b)
            &&& forall|b: int| 0 <= b < t.dv_files.len() ==> #[trigger] updates_batch(p.actions, b)
        },
{
    if let Ok(p) = commit::plan_of(t, inputs, txn_id, log_root) {
        let a = p.actions;
        let start = 1 + commit::protocol_action(commit_plan::new_protocol_of(t)).len() + commit::metadata_action(
            commit_plan::new_metadata_of(t),
        ).len();
        let after_adds = start + t.adds.len() + t.set_transactions.len() + p.metadata.domains.len();
        let after_removes = after_adds + t.removes.len();
        let after_updated = after_removes + t.dv_files.len();
        assert forall|b: int| 0 <= b < t.adds.len() implies #[trigger] adds_batch(a, b) by {
            assert(a[start + b] matches ActionView::Add { batch, .. } && batch == b);
        }
        assert forall|b: int| 0 <= b < t.removes.len() implies #[trigger] removes_batch(a, b) by {
            assert(a[after_adds + b] == (ActionView::Remove { batch: b }));
        }
        assert forall|b: int| 0 <= b < t.dv_files.len() implies #[trigger] updates_batch(a, b) by {
            assert(a[after_removes + b] == (ActionView::RemoveUpdated { batch: b }));
            assert(a[after_updated + b] == (ActionView::AddUpdated { batch: b }));
        }
    }
}

/// The files that a commit writes with row tracking get row identifiers above all that were given
/// before, batch after batch, and the highest one never falls.
pub proof fn row_ids_grow(high_water_mark: i64, batches: Seq<Seq<FileStatsView>>)
    requires
        commit_plan::batch_row_ids(high_water_mark, batches) is Ok,
        forall|b: int, i: int|
            0 <= b < batches.len() && 0 <= i < batches[b].len() ==> (
            (#[trigger] batches[b][i]).num_records matches Some(n) && n >= 0),
    ensures
        ({
            let ids = commit_plan::batch_row_ids(high_water_mark, batches)->Ok_0;
            &&& ids.base_row_ids.len() == batches.len()
            &&& ids.high_water_mark >= high_water_mark
            &&& forall|b: int, i: int|
                0 <= b < batches.len() && 0 <= i < batches[b].len() ==> high_water_mark
                    < #[trigger] ids.base_row_ids[b][i] && ids.base_row_ids[b][i]
                    + batches[b][i].num_records->0 - 1 <= ids.high_water_mark
            &&& forall|b: int, c: int, i: int, j: int|
                0 <= b < c < batches.len() && 0 <= i < batches[b].len() && 0 <= j < batches[c].len()
                    ==> #[trigger] ids.base_row_ids[b][i] + batches[b][i].num_records->0
                    <= #[trigger] ids.base_row_ids[c][j]
        }),
    decreases batches.len(),
{
    if batches.len() > 0 {
        let front = batches.drop_last();
        let n = batches.len() - 1;
        assert forall|b: int, i: int| 0 <= b < front.len() && 0 <= i < front[b].len() implies (
        (#[trigger] front[b][i]).num_records matches Some(n) && n >= 0) by {
            assert(front[b][i] == batches[b][i]);
        }
        row_ids_grow(high_water_mark, front);
        let before = commit_plan::batch_row_ids(high_water_mark, front)->Ok_0;
        let ids = commit_plan::batch_row_ids(high_water_mark, batches)->Ok_0;
        let records = commit_plan::records_of(batches[n]);
        assert forall|i: int| 0 <= i < records.len() implies ((#[trigger] records[i]) matches Some(n)
            && n >= 0) by {
            assert(batches[n][i].num_records == records[i]);
        }
        row_tracking::row_id_ranges_are_disjoint(before.high_water_mark, records);
        let last = row_tracking::row_ids_of(before.high_water_mark, records)->Ok_0;
        assert(ids.base_row_ids[n] == last.base_row_ids);
        assert forall|b: int, i: int| 0 <= b < batches.len() && 0 <= i < batches[b].len() implies
            high_water_mark < #[trigger] ids.base_row_ids[b][i] && ids.base_row_ids[b][i]
            + batches[b][i].num_records->0 - 1 <= ids.high_water_mark by {
            if b < n {
                assert(front[b] == batches[b]);
                assert(ids.base_row_ids[b] == before.base_row_ids[b]);
                assert(high_water_mark < before.base_row_ids[b][i]);
            } else {
                assert(records[i] == batches[n][i].num_records);
                assert(before.high_water_mark < last.base_row_ids[i]);
            }
        }
        assert forall|b: int, c: int, i: int, j: int|
            0 <= b < c < batches.len() && 0 <= i < batches[b].len() && 0 <= j < batches[c].len() implies
            #[trigger] ids.base_row_ids[b][i] + batches[b][i].num_records->0
            <= #[trigger] ids.base_row_ids[c][j] by {
            assert(front[b] == batches[b]);
            assert(ids.base_row_ids[b] == before.base_row_ids[b]);
            assert(high_water_mark < before.base_row_ids[b][i]);
            if c < n {
                assert(front[c] == batches[c]);
                assert(ids.base_row_ids[c] == before.base_row_ids[c]);
                assert(before.base_row_ids[b][i] + front[b][i].num_records->0
                    <= before.base_row_ids[c][j]);
            } else {
                assert(before.high_water_mark < last.base_row_ids[j]);
            }
        }
    }
}

/// Whether no application comes twice among application transactions.
pub open spec fn applications_distinct(s: Seq<SetTransactionView>) -> bool {
    forall|i: int, j: int|
        0 <= i < j < s.len() ==> (#[trigger] s[i]).app_id != (#[trigger] s[j]).app_id
}

/// Whether what the user asks of domains can be done: the table supports domains, none of the domains
/// is one of the system, and none comes twice.
pub open spec fn domains_can_change<D>(t: TxnView<D>) -> bool {
    &&& t.user_domains.len() + t.removals.len() > 0 ==> table_configuration::feature_supported(
        t.config.protocol,
        FeatureView::DomainMetadata,
    )
    &&& forall|i: int|
        0 <= i < t.user_domains.len() ==> !text::has_prefix(
            (#[trigger] t.user_domains[i]).domain,
            "delta."@,
        )
    &&& forall|i: int|
        0 <= i < t.removals.len() ==> !text::has_prefix(#[trigger] t.removals[i], "delta."@)
    &&& forall|i: int, j: int|
        0 <= i < j < t.user_domains.len() ==> (#[trigger] t.user_domains[i]).domain != (
        #[trigger] t.user_domains[j]).domain
    &&& forall|i: int, j: int|
        0 <= i < j < t.removals.len() ==> #[trigger] t.removals[i] != #[trigger] t.removals[j]
    &&& forall|i: int, j: int|
        0 <= i < t.user_domains.len() && 0 <= j < t.removals.len() ==> (
        #[trigger] t.user_domains[i]).domain != #[trigger] t.removals[j]
}

/// Whether a transaction marked as a blind append is one: it adds files to an existing table, changes
/// its data, and removes and updates none.
pub open spec fn blind_append_holds<D>(t: TxnView<D>) -> bool {
    t.blind_append ==> t.read is Some && t.adds.len() > 0 && t.data_change && t.removes.len() == 0
        && t.dv_files.len() == 0
}

/// Applications are accepted exactly where none comes twice.
proof fn lemma_applications(s: Seq<SetTransactionView>)
    ensures
        commit::app_ids_fault(s) is None <==> applications_distinct(s),
{
    let fault = |i: int|
        if commit::app_id_repeats(s, i) {
            Some(
                ErrorView::Generic("app_id "@ + s[i].app_id + " already exists in transaction"@),
            )
        } else {
            None
        };
    log_validation::lemma_first_fault(fault, 0, s.len() as int);
    if commit::app_ids_fault(s) is None {
        assert forall|i: int, j: int| 0 <= i < j < s.len() implies (#[trigger] s[i]).app_id != (
        #[trigger] s[j]).app_id by {
            assert(fault(j) is None);
            assert(!commit::app_id_repeats(s, j));
        }
    }
}

/// Changes of domains are accepted exactly where they can be made.
proof fn lemma_domains<D>(t: TxnView<D>)
    ensures
        domain_changes::domains_fault(t) is None <==> domains_can_change(t),
{
    let a = t.user_domains;
    let r = t.removals;
    let n = a.len() + r.len();
    let fault = |i: int| domain_changes::user_domain_fault(a, r, i);
    log_validation::lemma_first_fault(fault, 0, n as int);
    if domain_changes::domains_fault(t) is None {
        assert forall|i: int, j: int| 0 <= i < j < n implies domain_changes::user_domain_at(a, r, i)
            != domain_changes::user_domain_at(a, r, j) by {
            assert(fault(j) is None);
            assert(!domain_changes::domain_repeats(a, r, j));
        }
        assert forall|i: int| 0 <= i < a.len() implies !text::has_prefix(
            (#[trigger] a[i]).domain,
            "delta."@,
        ) by {
            assert(fault(i) is None);
        }
        assert forall|i: int| 0 <= i < r.len() implies !text::has_prefix(
            #[trigger] r[i],
            "delta."@,
        ) by {
            assert(fault(a.len() + i) is None);
            assert(domain_changes::user_domain_at(a, r, a.len() + i) == r[i]);
        }
        assert forall|i: int, j: int| 0 <= i < j < a.len() implies (#[trigger] a[i]).domain != (
        #[trigger] a[j]).domain by {
            assert(domain_changes::user_domain_at(a, r, i) != domain_changes::user_domain_at(
                a,
                r,
                j,
            ));
        }
        assert forall|i: int, j: int| 0 <= i < j < r.len() implies #[trigger] r[i]
            != #[trigger] r[j] by {
            assert(domain_changes::user_domain_at(a, r, a.len() + i)
                != domain_changes::user_domain_at(a, r, a.len() + j));
        }
        assert forall|i: int, j: int| 0 <= i < a.len() && 0 <= j < r.len() implies (
        #[trigger] a[i]).domain != #[trigger] r[j] by {
            assert(domain_changes::user_domain_at(a, r, i) != domain_changes::user_domain_at(
                a,
                r,
                a.len() + j,
            ));
        }
    }
    if domains_can_change(t) {
        assert forall|i: int| 0 <= i < n implies #[trigger] fault(i) is None by {
            let d = domain_changes::user_domain_at(a, r, i);
            if i < a.len() {
                assert(d == a[i].domain);
            } else {
                assert(d == r[i - a.len()]);
            }
            if domain_changes::domain_repeats(a, r, i) {
                let j = choose|j: int|
                    0 <= j < i && #[trigger] domain_changes::user_domain_at(a, r, j) == d;
                if i < a.len() {
                    assert(a[j].domain != a[i].domain);
                } else if j < a.len() {
                    assert(a[j].domain != r[i - a.len()]);
                } else {
                    assert(r[j - a.len()] != r[i - a.len()]);
                }
            }
        }
    }
}

/// A transaction can be committed exactly where no application comes twice, it is a blind append if
/// it is marked as one, it does not both add and remove data while changes are recorded, the files
/// have the statistics of the clustering columns, the rows of added files can get identifiers where
/// they must, the changes of domains can be made, a new table starts without removals, the log of the
/// table has a URL, and the commit goes through a catalog exactly where one manages the table.
pub proof fn transactions_are_committed_exactly_if_sound<D>(
    t: TxnView<D>,
    inputs: InputsView,
    txn_id: Seq<char>,
    log_root: Result<Seq<char>, ErrorView>,
)
    requires
        t.read matches Some(s) ==> s.config.version < i64::MAX,
    ensures
        commit::plan_of(t, inputs, txn_id, log_root) is Ok <==> {
            &&& applications_distinct(t.set_transactions)
            &&& blind_append_holds(t)
            &&& !(t.read is Some && t.adds.len() > 0 && t.removes.len() > 0 && t.data_change
                && t.config.properties.enable_change_data_feed == Some(true))
            &&& t.clustering matches Some(columns) ==> (columns.len() > 0 && inputs.stats.len() > 0
                ==> file_stats::added_stats_fault(t.config.physical, columns, inputs.stats) is None)
            &&& t.adds.len() > 0 && table_configuration::feature_supported(
                t.config.protocol,
                FeatureView::RowTracking,
            ) && t.config.properties.row_tracking_suspended != Some(true) ==> t.read is Some
                && commit_plan::batch_row_ids(
                match inputs.high_water_mark {
                    Some(m) => m,
                    None => -1i64,
                },
                inputs.stats,
            ) is Ok
            &&& domains_can_change(t)
            &&& t.read is None ==> t.removes.len() == 0 && t.dv_files.len() == 0
            &&& log_root is Ok
            &&& t.catalog_committer == table_configuration::catalog_managed(t.config.protocol)
        },
{
    lemma_applications(t.set_transactions);
    lemma_domains(t);
}

/// The first fault is one of the faults.
proof fn lemma_first_fault_is_one(fault: spec_fn(int) -> Option<ErrorView>, i: int, n: int)
    ensures
        log_validation::first_fault(fault, i, n) matches Some(e) ==> exists|j: int|
            i <= j < n && #[trigger] fault(j) == Some(e),
    decreases n - i,
{
    if i < n {
        lemma_first_fault_is_one(fault, i + 1, n);
        assert(fault(i) is Some ==> log_validation::first_fault(fault, i, n) == fault(i));
    }
}

/// A refused transaction is told why by the kind of the error: one that is no blind append
/// but is marked as one is in a wrong state; domains that the table does not support are
/// unsupported, and so are rows of a new table that would need identifiers; removals from a new table
/// are an internal error; and an error in the place of the log is passed on.
pub proof fn refused_transactions_are_told_why<D>(
    t: TxnView<D>,
    inputs: InputsView,
    txn_id: Seq<char>,
    log_root: Result<Seq<char>, ErrorView>,
)
    requires
        t.read matches Some(s) ==> s.config.version < i64::MAX,
    ensures
        commit::plan_of(t, inputs, txn_id, log_root) matches Err(e) ==> {
            let recorded = t.read is Some && t.adds.len() > 0 && t.removes.len() > 0
                && t.data_change && t.config.properties.enable_change_data_feed == Some(true);
            let tracks_rows = table_configuration::feature_supported(
                t.config.protocol,
                FeatureView::RowTracking,
            ) && t.config.properties.row_tracking_suspended != Some(true);
            let simple = applications_distinct(t.set_transactions) && blind_append_holds(t)
                && !recorded && t.clustering is None;
            let no_domains = t.user_domains.len() + t.removals.len() == 0;
            &&& applications_distinct(t.set_transactions) && !blind_append_holds(t)
                ==> e is InvalidTransactionState
            &&& !applications_distinct(t.set_transactions) ==> e is Generic
            &&& applications_distinct(t.set_transactions) && blind_append_holds(t) && recorded
                ==> e is Generic
            &&& simple && t.adds.len() > 0 && tracks_rows && t.read is None ==> e is Unsupported
            &&& simple && t.adds.len() == 0 && !no_domains && !table_configuration::feature_supported(
                t.config.protocol,
                FeatureView::DomainMetadata,
            ) ==> e is Unsupported
            &&& simple && t.adds.len() == 0 && no_domains && t.read is None && (t.removes.len() > 0
                || t.dv_files.len() > 0) ==> e is InternalError
            &&& simple && t.adds.len() == 0 && no_domains && t.read is Some ==> (log_root matches Err(
                f,
            ) ==> e == f)
        },
{
    lemma_applications(t.set_transactions);
    lemma_domains(t);
    let s = t.set_transactions;
    let fault = |i: int|
        if commit::app_id_repeats(s, i) {
            Some(
                ErrorView::Generic("app_id "@ + s[i].app_id + " already exists in transaction"@),
            )
        } else {
            None
        };
    lemma_first_fault_is_one(fault, 0, s.len() as int);
}

/// The names of fields.
pub open spec fn names_of(s: Seq<FieldView>) -> Seq<Seq<char>> {
    Seq::new(s.len(), |i: int| s[i].name)
}

/// The columns that rows take over as they are.
pub open spec fn kept_columns(s: Seq<FieldView>) -> Seq<Source> {
    Seq::new(s.len(), |i: int| Source::Field(s[i].name))
}

/// Leaving out fields leaves out exactly those that are named, and inserts nothing.
proof fn lemma_dropped_field(name: Seq<char>, names: Seq<Seq<char>>)
    ensures
        evaluation::edited_field(name, transaction::drop_edits(names)) == (if names.contains(name) {
            Seq::<Source>::empty()
        } else {
            seq![Source::Field(name)]
        }),
        evaluation::inserted_after(name, transaction::drop_edits(names)) == Seq::<Source>::empty(),
    decreases names.len(),
{
    let edits = transaction::drop_edits(names);
    if names.len() > 0 {
        lemma_dropped_field(name, names.drop_last());
        assert(edits.drop_last() =~= transaction::drop_edits(names.drop_last()));
        assert(edits.last() == (EditView::DropIfExists { field: names.last() }));
        if names.last() == name {
            assert(names[names.len() - 1] == name);
        } else if names.contains(name) {
            let i = choose|i: int| 0 <= i < names.len() && names[i] == name;
            assert(names.drop_last()[i] == name);
        } else if names.drop_last().contains(name) {
            let i = choose|i: int| 0 <= i < names.drop_last().len() && names.drop_last()[i] == name;
            assert(names[i] == name);
        }
    }
}

/// Leaving out named fields of a row leaves the other fields in order.
proof fn lemma_dropped_row(s: Seq<FieldView>, names: Seq<Seq<char>>)
    ensures
        evaluation::edited_row(names_of(s), transaction::drop_edits(names)) == kept_columns(table_configuration::fields_not_named(s, s, names)),
    decreases s.len(),
{
    if s.len() == 0 {
        assert(kept_columns(table_configuration::fields_not_named(s, s, names)) =~= Seq::<Source>::empty());
    } else {
        lemma_dropped_row(s.drop_last(), names);
        lemma_dropped_field(s.last().name, names);
        assert(names_of(s).drop_last() =~= names_of(s.drop_last()));
        assert(names_of(s).last() == s.last().name);
        let front = table_configuration::fields_not_named(s.drop_last(), s.drop_last(), names);
        assert(evaluation::edited_row(names_of(s), transaction::drop_edits(names)) =~= kept_columns(
            table_configuration::fields_not_named(s, s, names),
        ));
    }
}

/// Rows with the columns of the table become rows of data files: with materialised partition columns
/// they keep all their columns, else all but the partition columns, in order.
pub proof fn written_rows_leave_out_partition_columns(c: ConfigView)
    ensures
        evaluation::edited_row(names_of(c.logical), transaction::write_edits(c)) == kept_columns(
            if table_configuration::feature_enabled(
                c.protocol,
                c.properties,
                FeatureView::MaterializePartitionColumns,
            ) {
                c.logical
            } else {
                table_configuration::fields_not_named(c.logical, c.logical, c.metadata.partition_columns)
            },
        ),
{
    if table_configuration::feature_enabled(
        c.protocol,
        c.properties,
        FeatureView::MaterializePartitionColumns,
    ) {
        let none = Seq::<Seq<char>>::empty();
        lemma_dropped_row(c.logical, none);
        assert(transaction::drop_edits(none) =~= transaction::write_edits(c));
        lemma_none_named(c.logical);
    } else {
        lemma_dropped_row(c.logical, c.metadata.partition_columns);
    }
}

/// Where no field is named, all fields are kept.
proof fn lemma_none_named(s: Seq<FieldView>)
    ensures
        table_configuration::fields_not_named(s, s, Seq::<Seq<char>>::empty()) == s,
    decreases s.len(),
{
    if s.len() > 0 {
        lemma_none_named(s.drop_last());
        assert(s =~= s.drop_last().push(s.last()));
    }
}

} // verus!
