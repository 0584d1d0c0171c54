//! What the actions of a commit hold.
use vstd::prelude::*;

use crate::actions::{DomainMetadataView, SetTransactionView};
use crate::bindings;
use crate::commit;
use crate::commit_plan::{self, ActionView, InputsView};
use crate::domain_changes;
use crate::error::ErrorView;
use crate::file_stats::FileStatsView;
use crate::row_tracking;
use crate::table_configuration;
use crate::table_features::FeatureView;
use crate::text;
use crate::transaction::TxnView;

verus! {

/// Whether the set-transaction actions of a commit are the given ones, in order and side by side, the
/// first one at a position, and there are no others.
pub open spec fn transactions_stand_at(
    a: Seq<ActionView>,
    s: Seq<SetTransactionView>,
    start: int,
) -> bool {
    &&& 0 <= start
    &&& start + s.len() <= a.len()
    &&& forall|k: int|
        0 <= k < s.len() ==> a[start + k] == ActionView::SetTransaction(#[trigger] s[k])
    &&& forall|i: int|
        0 <= i < a.len() && (#[trigger] a[i]) is SetTransaction ==> start <= i < start + s.len()
}

/// Whether the domain metadata actions of a commit are the given ones, in order and side by side, the
/// first one at a position, and there are no others.
pub open spec fn domains_stand_at(
    a: Seq<ActionView>,
    s: Seq<DomainMetadataView>,
    start: int,
) -> bool {
    &&& 0 <= start
    &&& start + s.len() <= a.len()
    &&& forall|k: int|
        0 <= k < s.len() ==> a[start + k] == ActionView::DomainMetadata(#[trigger] s[k])
    &&& forall|i: int|
        0 <= i < a.len() && (#[trigger] a[i]) is DomainMetadata ==> start <= i < start + s.len()
}

/// Whatever else is staged, a commit records every application transaction that was staged, in the
/// order in which they were, each once, and no other: for each of them there is an action that holds
/// it, and each such action holds one of them.
pub proof fn every_transaction_identifier_is_committed<D>(
    t: TxnView<D>,
    inputs: InputsView,
    txn_id: Seq<char>,
    log_root: Result<Seq<char>, ErrorView>,
)
    ensures
        commit::plan_of(t, inputs, txn_id, log_root) matches Ok(p) ==> {
            &&& forall|k: int|
                0 <= k < t.set_transactions.len() ==> p.actions.contains(
                    ActionView::SetTransaction(#[trigger] t.set_transactions[k]),
                )
            &&& forall|i: int|
                0 <= i < p.actions.len() ==> ((#[trigger] p.actions[i]) matches ActionView::SetTransaction(
                    s,
                ) ==> t.set_transactions.contains(s))
            &&& exists|start: int| transactions_stand_at(p.actions, t.set_transactions, start)
        },
{
    if let Ok(p) = commit::plan_of(t, inputs, txn_id, log_root) {
        let a = p.actions;
        let start = 1 + (if t.emit_protocol {
            1int
        } else {
            0
        }) + (if t.emit_metadata {
            1int
        } else {
            0
        }) + t.adds.len();
        assert forall|k: int| 0 <= k < t.set_transactions.len() implies a[start + k]
            == ActionView::SetTransaction(#[trigger] t.set_transactions[k]) by {}
        assert forall|i: int| 0 <= i < a.len() && (#[trigger] a[i]) is SetTransaction implies start
            <= i < start + t.set_transactions.len() by {}
        assert(transactions_stand_at(a, t.set_transactions, start));
        assert forall|k: int| 0 <= k < t.set_transactions.len() implies a.contains(
            ActionView::SetTransaction(#[trigger] t.set_transactions[k]),
        ) by {
            assert(a[start + k] == ActionView::SetTransaction(t.set_transactions[k]));
        }
        assert forall|i: int| 0 <= i < a.len() implies ((#[trigger] a[i]) matches ActionView::SetTransaction(
            s,
        ) ==> t.set_transactions.contains(s)) by {
            if a[i] is SetTransaction {
                let k = i - start;
                assert(0 <= k < t.set_transactions.len());
                assert(a[start + k] == ActionView::SetTransaction(t.set_transactions[k]));
            }
        }
    }
}

/// Whatever else is staged, a commit holds exactly the domain changes that the committer is told of,
/// in that order.
pub proof fn every_domain_change_is_committed<D>(
    t: TxnView<D>,
    inputs: InputsView,
    txn_id: Seq<char>,
    log_root: Result<Seq<char>, ErrorView>,
)
    ensures
        commit::plan_of(t, inputs, txn_id, log_root) matches Ok(p) ==> {
            &&& forall|k: int|
                0 <= k < p.metadata.domains.len() ==> p.actions.contains(
                    ActionView::DomainMetadata(#[trigger] p.metadata.domains[k]),
                )
            &&& forall|i: int|
                0 <= i < p.actions.len() ==> ((#[trigger] p.actions[i]) matches ActionView::DomainMetadata(
                    d,
                ) ==> p.metadata.domains.contains(d))
            &&& exists|start: int| domains_stand_at(p.actions, p.metadata.domains, start)
        },
{
    if let Ok(p) = commit::plan_of(t, inputs, txn_id, log_root) {
        let a = p.actions;
        let domains = p.metadata.domains;
        let start = 1 + (if t.emit_protocol {
            1int
        } else {
            0
        }) + (if t.emit_metadata {
            1int
        } else {
            0
        }) + t.adds.len() + t.set_transactions.len();
        assert forall|k: int| 0 <= k < domains.len() implies a[start + k]
            == ActionView::DomainMetadata(#[trigger] domains[k]) by {}
        assert forall|i: int| 0 <= i < a.len() && (#[trigger] a[i]) is DomainMetadata implies start
            <= i < start + domains.len() by {}
        assert(domains_stand_at(a, domains, start));
        assert forall|k: int| 0 <= k < domains.len() implies a.contains(
            ActionView::DomainMetadata(#[trigger] domains[k]),
        ) by {
            assert(a[start + k] == ActionView::DomainMetadata(domains[k]));
        }
        assert forall|i: int| 0 <= i < a.len() implies ((#[trigger] a[i]) matches ActionView::DomainMetadata(
            d,
        ) ==> domains.contains(d)) by {
            if a[i] is DomainMetadata {
                let k = i - start;
                assert(0 <= k < domains.len());
                assert(a[start + k] == ActionView::DomainMetadata(domains[k]));
            }
        }
    }
}

/// Where in a commit an action stands relative to the others: the commit info first, then the
/// protocol, the metadata, added files, application transactions, domains, removed files, and files
/// with new deletion vectors, first to remove and then to add them.
pub open spec fn action_rank(a: ActionView) -> int {
    match a {
        ActionView::CommitInfo(_) => 0,
        ActionView::Protocol(_) => 1,
        ActionView::Metadata(_) => 2,
        ActionView::Add { .. } => 3,
        ActionView::SetTransaction(_) => 4,
        ActionView::DomainMetadata(_) => 5,
        ActionView::Remove { .. } => 6,
        ActionView::RemoveUpdated { .. } => 7,
        ActionView::AddUpdated { .. } => 8,
    }
}

/// The batch that an action on files is about.
pub open spec fn batch_of(a: ActionView) -> Option<int> {
    match a {
        ActionView::Add { batch, .. } => Some(batch),
        ActionView::Remove { batch } => Some(batch),
        ActionView::RemoveUpdated { batch } => Some(batch),
        ActionView::AddUpdated { batch } => Some(batch),
        _ => None,
    }
}

/// The actions of a commit stand in a fixed order, and actions of one kind on files in the order of
/// the batches, so that no batch comes twice; none is about a batch that was not staged.
pub proof fn actions_stand_in_order<D>(
    t: TxnView<D>,
    inputs: InputsView,
    txn_id: Seq<char>,
    log_root: Result<Seq<char>, ErrorView>,
)
    ensures
        commit::plan_of(t, inputs, txn_id, log_root) matches Ok(p) ==> {
            &&& forall|i: int, j: int|
                0 <= i < j < p.actions.len() ==> action_rank(#[trigger] p.actions[i])
                    <= action_rank(#[trigger] p.actions[j])
            &&& forall|i: int, j: int|
                0 <= i < j < p.actions.len() && action_rank(#[trigger] p.actions[i])
                    == action_rank(#[trigger] p.actions[j]) && batch_of(p.actions[i]) is Some
                    ==> batch_of(p.actions[i])->0 < batch_of(p.actions[j])->0
            &&& forall|i: int|
                0 <= i < p.actions.len() ==> (match #[trigger] p.actions[i] {
                    ActionView::Add { batch, .. } => 0 <= batch < t.adds.len(),
                    ActionView::Remove { batch } => 0 <= batch < t.removes.len(),
                    ActionView::RemoveUpdated { batch } => 0 <= batch < t.dv_files.len(),
                    ActionView::AddUpdated { batch } => 0 <= batch < t.dv_files.len(),
                    _ => true,
                })
        },
{
}

/// A commit that brings a protocol brings that of the table after it, once, and likewise the
/// metadata; the committer is told of both, and of those before the commit.
pub proof fn table_actions_hold_the_new_table<D>(
    t: TxnView<D>,
    inputs: InputsView,
    txn_id: Seq<char>,
    log_root: Result<Seq<char>, ErrorView>,
)
    ensures
        commit::plan_of(t, inputs, txn_id, log_root) matches Ok(p) ==> {
            &&& forall|i: int|
                0 <= i < p.actions.len() ==> ((#[trigger] p.actions[i]) matches ActionView::Protocol(
                    protocol,
                ) ==> i == 1 && protocol == t.config.protocol)
            &&& forall|i: int|
                0 <= i < p.actions.len() ==> ((#[trigger] p.actions[i]) matches ActionView::Metadata(
                    m,
                ) ==> i == (if t.emit_protocol {
                    2int
                } else {
                    1
                }) && m == t.config.metadata)
            &&& t.emit_protocol ==> p.metadata.new_protocol == Some(t.config.protocol)
            &&& !t.emit_protocol ==> p.metadata.new_protocol is None
            &&& t.emit_metadata ==> p.metadata.new_metadata == Some(t.config.metadata)
            &&& !t.emit_metadata ==> p.metadata.new_metadata is None
            &&& t.read matches Some(s) ==> p.metadata.read_protocol == Some(s.config.protocol)
                && p.metadata.read_metadata == Some(s.config.metadata)
        },
{
}

/// A commit says of itself when its transaction began, which operation it was (unknown where nobody
/// said), which engine made it, with which version of the library, and under which identifier; it
/// says that it is a blind append exactly where it is one, and it carries the in-commit timestamp.
pub proof fn commit_info_tells_of_the_transaction<D>(
    t: TxnView<D>,
    inputs: InputsView,
    txn_id: Seq<char>,
    log_root: Result<Seq<char>, ErrorView>,
)
    ensures
        commit::plan_of(t, inputs, txn_id, log_root) matches Ok(p) ==> (
        p.actions[0] matches ActionView::CommitInfo(info) && {
            &&& info.timestamp == Some(t.timestamp)
            &&& info.in_commit_timestamp == p.in_commit_timestamp
            &&& t.operation is Some ==> info.operation == t.operation
            &&& t.operation is None ==> info.operation == Some("UNKNOWN"@)
            &&& info.engine_info == t.engine_info
            &&& t.blind_append ==> info.is_blind_append == Some(true)
            &&& !t.blind_append ==> info.is_blind_append is None
            &&& info.txn_id == Some(txn_id)
            &&& info.kernel_version == Some("v0.1.0"@)
            &&& info.operation_parameters == Some(Map::<Seq<char>, Seq<char>>::empty())
        }),
{
    reveal_strlit("v");
    reveal_strlit("0.1.0");
    reveal_strlit("v0.1.0");
    assert("v"@ + "0.1.0"@ =~= "v0.1.0"@);
}

/// A commit is of the version after that of the table that the transaction read, and goes to the log
/// of the table; the committer is told its in-commit timestamp, or else when the transaction began,
/// up to which version commits are published, and whether the table is new and a catalog manages it.
pub proof fn committer_is_told_of_the_commit<D>(
    t: TxnView<D>,
    inputs: InputsView,
    txn_id: Seq<char>,
    log_root: Result<Seq<char>, ErrorView>,
)
    requires
        t.read matches Some(s) ==> s.config.version < u64::MAX,
    ensures
        commit::plan_of(t, inputs, txn_id, log_root) matches Ok(p) ==> {
            &&& log_root == Ok::<Seq<char>, ErrorView>(p.metadata.log_root)
            &&& t.read matches Some(s) ==> p.metadata.version == s.config.version + 1
                && p.metadata.max_published == s.segment.listed.max_published
            &&& t.read is None ==> p.metadata.version == 0 && p.metadata.max_published is None
            &&& p.in_commit_timestamp matches Some(ts) ==> p.metadata.in_commit_timestamp == ts
            &&& p.in_commit_timestamp is None ==> p.metadata.in_commit_timestamp == t.timestamp
            &&& (p.metadata.commit_type is PathBasedCreate || p.metadata.commit_type is CatalogManagedCreate)
                <==> t.read is None
            &&& (p.metadata.commit_type is CatalogManagedCreate
                || p.metadata.commit_type is CatalogManagedWrite) <==> table_configuration::catalog_managed(
                t.config.protocol,
            )
        },
{
}

/// Where in-commit timestamps are enabled, every commit has one: that of the commit that creates a
/// table is the time of the transaction, and that of any other commit is the time of the transaction
/// or, where that is not later than the one before, one more than that. Where they are not enabled,
/// or the one before is not known, a commit has none.
pub proof fn commits_carry_in_commit_timestamps<D>(
    t: TxnView<D>,
    inputs: InputsView,
    txn_id: Seq<char>,
    log_root: Result<Seq<char>, ErrorView>,
)
    requires
        inputs.previous matches Some(before) ==> before < i64::MAX,
    ensures
        commit::plan_of(t, inputs, txn_id, log_root) matches Ok(p) ==> {
            let enabled = table_configuration::feature_enabled(
                t.config.protocol,
                t.config.properties,
                FeatureView::InCommitTimestamp,
            );
            &&& !enabled ==> p.in_commit_timestamp is None
            &&& enabled && t.read is None ==> p.in_commit_timestamp == Some(t.timestamp)
            &&& t.read is Some && inputs.previous is None ==> p.in_commit_timestamp is None
            &&& enabled && t.read is Some ==> (inputs.previous matches Some(before) ==> {
                &&& before < t.timestamp ==> p.in_commit_timestamp == Some(t.timestamp)
                &&& before >= t.timestamp ==> (p.in_commit_timestamp matches Some(ts) && ts == before
                    + 1)
            })
        },
{
}

/// The rows of batches of files that come one after the other.
pub open spec fn rows_in_batches(batches: Seq<Seq<FileStatsView>>) -> int
    decreases batches.len(),
{
    if batches.len() == 0 {
        0
    } else {
        rows_in_batches(batches.drop_last()) + row_tracking::rows_in(
            commit_plan::records_of(batches.last()),
        )
    }
}

/// Over batches too row identifiers leave no gap: each file starts right after the rows of all files
/// before it, in its own batch and in earlier ones.
pub proof fn batch_row_ids_leave_no_gap(high_water_mark: i64, batches: Seq<Seq<FileStatsView>>)
    requires
        forall|b: int, i: int|
            0 <= b < batches.len() && 0 <= i < batches[b].len() ==> (
            (#[trigger] batches[b][i]).num_records matches Some(n) ==> n >= 0),
    ensures
        commit_plan::batch_row_ids(high_water_mark, batches) matches Ok(ids) ==> {
            &&& ids.base_row_ids.len() == batches.len()
            &&& ids.high_water_mark == high_water_mark + rows_in_batches(batches)
            &&& forall|b: int|
                0 <= b < batches.len() ==> (#[trigger] ids.base_row_ids[b]).len() == batches[b].len()
            &&& forall|b: int, i: int|
                0 <= b < batches.len() && 0 <= i < batches[b].len() ==> #[trigger] ids.base_row_ids[b][i]
                    == high_water_mark + 1 + rows_in_batches(batches.take(b)) + row_tracking::rows_in(
                    commit_plan::records_of(batches[b]).take(i),
                )
        },
    decreases batches.len(),
{
    if batches.len() > 0 {
        let front = batches.drop_last();
        let n = batches.len() - 1;
        assert forall|b: int, i: int| 0 <= b < front.len() && 0 <= i < front[b].len() implies (
        (#[trigger] front[b][i]).num_records matches Some(n) ==> n >= 0) by {
            assert(front[b][i] == batches[b][i]);
        }
        batch_row_ids_leave_no_gap(high_water_mark, front);
        if let Ok(ids) = commit_plan::batch_row_ids(high_water_mark, batches) {
            let before = commit_plan::batch_row_ids(high_water_mark, front)->Ok_0;
            let records = commit_plan::records_of(batches[n]);
            assert forall|i: int| 0 <= i < records.len() implies ((#[trigger] records[i]) matches Some(
                n,
            ) ==> n >= 0) by {
                assert(batches[n][i].num_records == records[i]);
            }
            row_tracking::row_ids_leave_no_gap(before.high_water_mark, records);
            let last = row_tracking::row_ids_of(before.high_water_mark, records)->Ok_0;
            assert(ids.base_row_ids[n] == last.base_row_ids);
            assert forall|b: int| 0 <= b < batches.len() implies (#[trigger] ids.base_row_ids[b]).len()
                == batches[b].len() by {
                if b < n {
                    assert(ids.base_row_ids[b] == before.base_row_ids[b]);
                    assert(front[b] == batches[b]);
                }
            }
            assert forall|b: int, i: int| 0 <= b < batches.len() && 0 <= i < batches[b].len() implies
                #[trigger] ids.base_row_ids[b][i] == high_water_mark + 1 + rows_in_batches(
                batches.take(b),
            ) + row_tracking::rows_in(commit_plan::records_of(batches[b]).take(i)) by {
                if b < n {
                    assert(front[b] == batches[b]);
                    assert(ids.base_row_ids[b] == before.base_row_ids[b]);
                    assert(before.base_row_ids[b][i] == high_water_mark + 1 + rows_in_batches(
                        front.take(b),
                    ) + row_tracking::rows_in(commit_plan::records_of(front[b]).take(i)));
                    assert(front.take(b) =~= batches.take(b));
                } else {
                    assert(batches.take(b) =~= front);
                    assert(last.base_row_ids[i] == before.high_water_mark + 1 + row_tracking::rows_in(
                        records.take(i),
                    ));
                }
            }
        }
    }
}

/// Whether a commit gives the rows of the files it adds identifiers: the table supports row tracking
/// and has not suspended it.
pub open spec fn gives_row_ids<D>(t: TxnView<D>) -> bool {
    table_configuration::feature_supported(t.config.protocol, FeatureView::RowTracking)
        && t.config.properties.row_tracking_suspended != Some(true)
}

/// With row tracking, each added file gets the identifier of its first row, right after the rows of
/// all files before it, starting above the highest identifier of the table, and the version of the
/// commit; without, files get neither.
pub proof fn added_files_get_row_ids<D>(
    t: TxnView<D>,
    inputs: InputsView,
    txn_id: Seq<char>,
    log_root: Result<Seq<char>, ErrorView>,
    i: int,
)
    requires
        forall|b: int, i: int|
            0 <= b < inputs.stats.len() && 0 <= i < inputs.stats[b].len() ==> (
            (#[trigger] inputs.stats[b][i]).num_records matches Some(n) ==> n >= 0),
        inputs.stats.len() == t.adds.len(),
    ensures
        commit::plan_of(t, inputs, txn_id, log_root) matches Ok(p) ==> (0 <= i < p.actions.len()
            ==> (p.actions[i] matches ActionView::Add { batch, row_tracking } ==> {
            let mark: int = match inputs.high_water_mark {
                Some(m) => m as int,
                None => -1,
            };
            &&& row_tracking is Some <==> gives_row_ids(t)
            &&& row_tracking matches Some((ids, version)) ==> {
                &&& version == p.metadata.version
                &&& ids.len() == inputs.stats[batch].len()
                &&& forall|k: int|
                    0 <= k < ids.len() ==> #[trigger] ids[k] == mark + 1 + rows_in_batches(
                        inputs.stats.take(batch),
                    ) + row_tracking::rows_in(commit_plan::records_of(inputs.stats[batch]).take(k))
            }
        })),
{
    if let Ok(p) = commit::plan_of(t, inputs, txn_id, log_root) {
        let mark: i64 = match inputs.high_water_mark {
            Some(m) => m,
            None => (-1) as i64,
        };
        batch_row_ids_leave_no_gap(mark, inputs.stats);
        let start = 1 + (if t.emit_protocol {
            1int
        } else {
            0
        }) + (if t.emit_metadata {
            1int
        } else {
            0
        });
        if 0 <= i < p.actions.len() && p.actions[i] is Add {
            assert(start <= i < start + t.adds.len());
            assert(p.actions[i]->Add_batch == i - start);
        }
    }
}

/// Whether a change to a domain is one that a transaction asks for: one that the user or the library
/// sets, or the removal of a domain that exists and that the user removes, with the configuration
/// that it has.
pub open spec fn change_is_asked_for<D>(
    t: TxnView<D>,
    existing: Map<Seq<char>, Seq<char>>,
    d: DomainMetadataView,
) -> bool {
    ||| t.user_domains.contains(d)
    ||| t.system_domains.contains(d)
    ||| d.removed && t.removals.contains(d.domain) && existing.dom().contains(d.domain)
        && d.configuration == existing[d.domain]
}

/// The tombstones of domains are those of the domains that exist among those to remove.
proof fn lemma_tombstones_are_removals(
    removals: Seq<Seq<char>>,
    existing: Map<Seq<char>, Seq<char>>,
)
    ensures
        ({
            let s = domain_changes::tombstones(removals, existing);
            &&& forall|i: int|
                0 <= i < s.len() ==> (#[trigger] s[i]).removed && removals.contains(s[i].domain)
                    && existing.dom().contains(s[i].domain) && s[i].configuration
                    == existing[s[i].domain]
            &&& forall|k: int|
                0 <= k < removals.len() && existing.dom().contains(#[trigger] removals[k])
                    ==> s.contains(
                    DomainMetadataView {
                        domain: removals[k],
                        configuration: existing[removals[k]],
                        removed: true,
                    },
                )
        }),
    decreases removals.len(),
{
    if removals.len() > 0 {
        let front = removals.drop_last();
        let n = removals.len() - 1;
        lemma_tombstones_are_removals(front, existing);
        let before = domain_changes::tombstones(front, existing);
        let s = domain_changes::tombstones(removals, existing);
        assert forall|i: int| 0 <= i < s.len() implies (#[trigger] s[i]).removed && removals.contains(
            s[i].domain,
        ) && existing.dom().contains(s[i].domain) && s[i].configuration == existing[s[i].domain] by {
            if i < before.len() {
                assert(s[i] == before[i]);
                assert(front.contains(before[i].domain));
                let k = choose|k: int| 0 <= k < front.len() && front[k] == before[i].domain;
                assert(removals[k] == s[i].domain);
            } else {
                assert(removals[n] == s[i].domain);
            }
        }
        assert forall|k: int| 0 <= k < removals.len() && existing.dom().contains(
            #[trigger] removals[k],
        ) implies s.contains(
            DomainMetadataView {
                domain: removals[k],
                configuration: existing[removals[k]],
                removed: true,
            },
        ) by {
            let d = DomainMetadataView {
                domain: removals[k],
                configuration: existing[removals[k]],
                removed: true,
            };
            if k < n {
                assert(front[k] == removals[k]);
                assert(before.contains(d));
                let i = choose|i: int| 0 <= i < before.len() && before[i] == d;
                assert(s[i] == d);
            } else {
                assert(s[s.len() - 1] == d);
            }
        }
    }
}

/// The changes to domains that a commit makes are those that were asked for: every domain that the
/// user or the library sets, and the removal of every domain that the user removes and that exists,
/// with its configuration. Besides these there is only the highest row identifier, which is set
/// exactly where the commit adds files whose rows get identifiers.
pub proof fn domain_changes_are_those_asked_for<D>(
    t: TxnView<D>,
    inputs: InputsView,
    txn_id: Seq<char>,
    log_root: Result<Seq<char>, ErrorView>,
)
    requires
        forall|b: int, i: int|
            0 <= b < inputs.stats.len() && 0 <= i < inputs.stats[b].len() ==> (
            (#[trigger] inputs.stats[b][i]).num_records matches Some(n) ==> n >= 0),
    ensures
        commit::plan_of(t, inputs, txn_id, log_root) matches Ok(p) ==> {
            let domains = p.metadata.domains;
            let mark: int = match inputs.high_water_mark {
                Some(m) => m as int,
                None => -1,
            };
            let new_mark = DomainMetadataView {
                domain: "delta.rowTracking"@,
                configuration: "{\"rowIdHighWaterMark\":"@ + text::signed_decimal(
                    mark + rows_in_batches(inputs.stats),
                ) + "}"@,
                removed: false,
            };
            &&& forall|k: int|
                0 <= k < t.user_domains.len() ==> domains.contains(#[trigger] t.user_domains[k])
            &&& forall|k: int|
                0 <= k < t.system_domains.len() ==> domains.contains(#[trigger] t.system_domains[k])
            &&& forall|k: int|
                0 <= k < t.removals.len() && inputs.domains.dom().contains(#[trigger] t.removals[k])
                    ==> domains.contains(
                    DomainMetadataView {
                        domain: t.removals[k],
                        configuration: inputs.domains[t.removals[k]],
                        removed: true,
                    },
                )
            &&& t.adds.len() > 0 && gives_row_ids(t) ==> domains.contains(new_mark)
            &&& forall|i: int|
                0 <= i < domains.len() ==> change_is_asked_for(
                    t,
                    inputs.domains,
                    #[trigger] domains[i],
                ) || (t.adds.len() > 0 && gives_row_ids(t) && domains[i] == new_mark)
        },
{
    if let Ok(p) = commit::plan_of(t, inputs, txn_id, log_root) {
        let domains = p.metadata.domains;
        let mark: i64 = match inputs.high_water_mark {
            Some(m) => m,
            None => (-1) as i64,
        };
        batch_row_ids_leave_no_gap(mark, inputs.stats);
        lemma_tombstones_are_removals(t.removals, inputs.domains);
        let s = domain_changes::tombstones(t.removals, inputs.domains);
        let a = t.user_domains.len() as int;
        let b = s.len() as int;
        let c = t.system_domains.len() as int;
        assert forall|k: int| 0 <= k < t.user_domains.len() implies domains.contains(
            #[trigger] t.user_domains[k],
        ) by {
            assert(domains[k] == t.user_domains[k]);
        }
        assert forall|k: int| 0 <= k < t.system_domains.len() implies domains.contains(
            #[trigger] t.system_domains[k],
        ) by {
            assert(domains[a + b + k] == t.system_domains[k]);
        }
        assert forall|k: int| 0 <= k < t.removals.len() && inputs.domains.dom().contains(
            #[trigger] t.removals[k],
        ) implies domains.contains(
            DomainMetadataView {
                domain: t.removals[k],
                configuration: inputs.domains[t.removals[k]],
                removed: true,
            },
        ) by {
            let d = DomainMetadataView {
                domain: t.removals[k],
                configuration: inputs.domains[t.removals[k]],
                removed: true,
            };
            assert(s.contains(d));
            let i = choose|i: int| 0 <= i < s.len() && s[i] == d;
            assert(domains[a + i] == d);
        }
        if t.adds.len() > 0 && gives_row_ids(t) {
            let ids = commit_plan::batch_row_ids(mark, inputs.stats)->Ok_0;
            assert(domains[a + b + c] == row_tracking::row_tracking_domain(ids.high_water_mark));
        }
        assert forall|i: int| 0 <= i < domains.len() implies change_is_asked_for(
            t,
            inputs.domains,
            #[trigger] domains[i],
        ) || (t.adds.len() > 0 && gives_row_ids(t) && domains[i] == (DomainMetadataView {
            domain: "delta.rowTracking"@,
            configuration: "{\"rowIdHighWaterMark\":"@ + text::signed_decimal(
                mark + rows_in_batches(inputs.stats),
            ) + "}"@,
            removed: false,
        })) by {
            if i < a {
                assert(domains[i] == t.user_domains[i]);
            } else if i < a + b {
                assert(domains[i] == s[i - a]);
            } else if i < a + b + c {
                assert(domains[i] == t.system_domains[i - a - b]);
            } else {
                assert(t.adds.len() > 0 && gives_row_ids(t));
            }
        }
    }
}

/// Whether the number of records of every file of batches is known.
pub open spec fn all_counted(batches: Seq<Seq<FileStatsView>>) -> bool {
    forall|b: int, i: int|
        0 <= b < batches.len() && 0 <= i < batches[b].len() ==> (
        #[trigger] batches[b][i]).num_records is Some
}

/// The files of batches get row identifiers exactly where the number of records of each is known, as
/// long as there are enough identifiers.
pub proof fn counted_files_get_row_ids(high_water_mark: i64, batches: Seq<Seq<FileStatsView>>)
    requires
        forall|b: int, i: int|
            0 <= b < batches.len() && 0 <= i < batches[b].len() ==> (
            (#[trigger] batches[b][i]).num_records matches Some(n) ==> n >= 0),
    ensures
        commit_plan::batch_row_ids(high_water_mark, batches) is Ok ==> all_counted(batches),
        all_counted(batches) && high_water_mark + rows_in_batches(batches) < i64::MAX
            ==> commit_plan::batch_row_ids(high_water_mark, batches) is Ok,
        rows_in_batches(batches) >= 0,
    decreases batches.len(),
{
    if batches.len() > 0 {
        let front = batches.drop_last();
        let n = batches.len() - 1;
        assert forall|b: int, i: int| 0 <= b < front.len() && 0 <= i < front[b].len() implies (
        (#[trigger] front[b][i]).num_records matches Some(n) ==> n >= 0) by {
            assert(front[b][i] == batches[b][i]);
        }
        counted_files_get_row_ids(high_water_mark, front);
        batch_row_ids_leave_no_gap(high_water_mark, front);
        let records = commit_plan::records_of(batches[n]);
        assert forall|i: int| 0 <= i < records.len() implies ((#[trigger] records[i]) matches Some(n)
            ==> n >= 0) by {
            assert(batches[n][i].num_records == records[i]);
        }
        row_tracking::row_ids_leave_no_gap(high_water_mark, records);
        if let Ok(before) = commit_plan::batch_row_ids(high_water_mark, front) {
            row_tracking::row_ids_leave_no_gap(before.high_water_mark, records);
        }
        if commit_plan::batch_row_ids(high_water_mark, batches) is Ok {
            assert forall|b: int, i: int|
                0 <= b < batches.len() && 0 <= i < batches[b].len() implies (
            #[trigger] batches[b][i]).num_records is Some by {
                if b < n {
                    assert(front[b][i].num_records is Some);
                } else {
                    assert(records[i] is Some);
                }
            }
        }
        if all_counted(batches) {
            assert forall|b: int, i: int| 0 <= b < front.len() && 0 <= i < front[b].len() implies (
            #[trigger] front[b][i]).num_records is Some by {
                assert(batches[b][i].num_records is Some);
            }
            assert forall|i: int| 0 <= i < records.len() implies #[trigger] records[i] is Some by {
                assert(batches[n][i].num_records is Some);
            }
        }
    }
}

/// The log of a table is the directory `_delta_log` below it; where that is no URL, it is an error.
pub proof fn logs_are_below_their_tables(table_root: Seq<char>)
    ensures
        commit::log_root_of(table_root) is Ok <==> bindings::joined_url(
            table_root,
            "_delta_log/"@,
        ) is Ok,
        commit::log_root_of(table_root) matches Ok(u) ==> bindings::joined_url(
            table_root,
            "_delta_log/"@,
        ) == Ok::<Seq<char>, Seq<char>>(u),
        commit::log_root_of(table_root) matches Err(e) ==> e is InvalidUrl,
{
}

} // verus!
