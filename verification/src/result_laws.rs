//! What a commit records of itself and makes of the table.
use vstd::prelude::*;

use crate::actions::{self, DomainMetadataView, MetadataView, ProtocolView};
use crate::commit::CommitPlan;
use crate::commit_path;
use crate::commit_result::{self, CommitResponse, CommitResultView};
use crate::crc::CrcDeltaView;
use crate::error::{DeltaResult, ErrorView};
use crate::file_sizes::{self, StagedSizesView};
use crate::log_segment;
use crate::path::FileMetaView;
use crate::schema::FieldView;
use crate::table_configuration::{self, ConfigView};
use crate::transaction::TxnView;
use crate::Version;

verus! {

/// How many files batches hold.
pub open spec fn files_in(batches: Seq<Seq<i64>>) -> int
    decreases batches.len(),
{
    if batches.len() == 0 {
        0
    } else {
        files_in(batches.drop_last()) + batches.last().len()
    }
}

/// How many bytes the files of batches hold.
pub open spec fn bytes_in(batches: Seq<Seq<i64>>) -> int
    decreases batches.len(),
{
    if batches.len() == 0 {
        0
    } else {
        bytes_in(batches.drop_last()) + file_sizes::sum_of(batches.last())
    }
}

/// How many of the first `n` rows of a batch are selected: those that the selection names, and those
/// after its end.
pub open spec fn rows_selected(selection: Seq<bool>, n: nat) -> int
    decreases n,
{
    if n == 0 {
        0
    } else {
        rows_selected(selection, (n - 1) as nat) + (if n - 1 >= selection.len() || selection[n - 1] {
            1int
        } else {
            0
        })
    }
}

/// How many bytes the selected files among the first `n` of a batch hold.
pub open spec fn bytes_selected(sizes: Seq<i64>, selection: Seq<bool>, n: nat) -> int
    decreases n,
{
    if n == 0 {
        0
    } else {
        bytes_selected(sizes, selection, (n - 1) as nat) + (if n - 1 >= selection.len()
            || selection[n - 1] {
            sizes[n - 1] as int
        } else {
            0
        })
    }
}

/// How many files of batches are selected.
pub open spec fn files_selected(batches: Seq<Seq<i64>>, selections: Seq<Seq<bool>>) -> int
    decreases batches.len(),
{
    if batches.len() == 0 {
        0
    } else {
        files_selected(batches.drop_last(), selections.drop_last()) + rows_selected(
            selections.last(),
            batches.last().len(),
        )
    }
}

/// How many bytes the selected files of batches hold.
pub open spec fn all_bytes_selected(batches: Seq<Seq<i64>>, selections: Seq<Seq<bool>>) -> int
    decreases batches.len(),
{
    if batches.len() == 0 {
        0
    } else {
        all_bytes_selected(batches.drop_last(), selections.drop_last()) + bytes_selected(
            batches.last(),
            selections.last(),
            batches.last().len(),
        )
    }
}

/// The sum of two lists is the sum of their sums.
proof fn lemma_sum_of_both(a: Seq<i64>, b: Seq<i64>)
    ensures
        file_sizes::sum_of(a + b) == file_sizes::sum_of(a) + file_sizes::sum_of(b),
    decreases b.len(),
{
    if b.len() == 0 {
        assert(a + b =~= a);
    } else {
        lemma_sum_of_both(a, b.drop_last());
        assert((a + b).drop_last() =~= a + b.drop_last());
    }
}

/// The sizes of all batches are as many and as much as the files.
proof fn lemma_all_sizes(batches: Seq<Seq<i64>>)
    ensures
        file_sizes::all_sizes(batches).len() == files_in(batches),
        file_sizes::sum_of(file_sizes::all_sizes(batches)) == bytes_in(batches),
    decreases batches.len(),
{
    if batches.len() > 0 {
        lemma_all_sizes(batches.drop_last());
        lemma_sum_of_both(file_sizes::all_sizes(batches.drop_last()), batches.last());
    }
}

/// The sizes of the selected rows of a batch are as many and as much as the selected files.
proof fn lemma_batch_selected(sizes: Seq<i64>, selection: Seq<bool>, all: Seq<i64>)
    requires
        sizes.len() <= all.len(),
        forall|i: int| 0 <= i < sizes.len() ==> sizes[i] == all[i],
    ensures
        file_sizes::batch_selected(sizes, selection).len() == rows_selected(selection, sizes.len()),
        file_sizes::sum_of(file_sizes::batch_selected(sizes, selection)) == bytes_selected(
            all,
            selection,
            sizes.len(),
        ),
    decreases sizes.len(),
{
    if sizes.len() > 0 {
        let front = sizes.drop_last();
        lemma_batch_selected(front, selection, all);
        let before = file_sizes::batch_selected(front, selection);
        let s = file_sizes::batch_selected(sizes, selection);
        if s.len() > before.len() {
            assert(s.drop_last() =~= before);
        }
    }
}

/// The sizes of the selected rows of all batches are as many and as much as the selected files.
proof fn lemma_all_selected(batches: Seq<Seq<i64>>, selections: Seq<Seq<bool>>)
    requires
        batches.len() == selections.len(),
    ensures
        file_sizes::all_selected(batches, selections).len() == files_selected(batches, selections),
        file_sizes::sum_of(file_sizes::all_selected(batches, selections)) == all_bytes_selected(
            batches,
            selections,
        ),
    decreases batches.len(),
{
    if batches.len() > 0 {
        let b = batches.drop_last();
        let s = selections.drop_last();
        lemma_all_selected(b, s);
        lemma_batch_selected(batches.last(), selections.last(), batches.last());
        lemma_sum_of_both(
            file_sizes::all_selected(b, s),
            file_sizes::batch_selected(batches.last(), selections.last()),
        );
    }
}

/// Which rows of staged removals are selected.
pub open spec fn selections_of<D>(t: TxnView<D>) -> Seq<Seq<bool>> {
    Seq::new(t.removes.len(), |i: int| t.removes[i].selection)
}

/// What a commit changes in the checksum of a table is what it does: the protocol and the metadata
/// that it brings, the changes of domains, the application transactions, the in-commit timestamp and
/// the operation; the files and bytes that it adds, less those that it removes. No file size is
/// missing. Without the sizes of every staged batch it cannot be told.
pub proof fn checksum_changes_are_those_of_the_commit<D>(
    t: TxnView<D>,
    in_commit_timestamp: Option<i64>,
    domains: Seq<DomainMetadataView>,
    sizes: StagedSizesView,
    boundaries: Option<Seq<i64>>,
)
    ensures
        commit_result::crc_delta_of(t, in_commit_timestamp, domains, sizes, boundaries) matches Ok(
            d,
        ) ==> {
            &&& sizes.added.len() == t.adds.len() && sizes.removed.len() == t.removes.len()
            &&& t.emit_protocol ==> d.protocol == Some(t.config.protocol)
            &&& !t.emit_protocol ==> d.protocol is None
            &&& t.emit_metadata ==> d.metadata == Some((t.config.metadata, t.config.logical))
            &&& !t.emit_metadata ==> d.metadata is None
            &&& d.domains == domains
            &&& d.set_transactions == t.set_transactions
            &&& d.in_commit_timestamp == in_commit_timestamp
            &&& d.operation == t.operation
            &&& !d.has_missing_file_size
            &&& d.file_stats.net_files == files_in(sizes.added) - files_selected(
                sizes.removed,
                selections_of(t),
            )
            &&& d.file_stats.net_bytes == bytes_in(sizes.added) - all_bytes_selected(
                sizes.removed,
                selections_of(t),
            )
            &&& boundaries is None ==> d.file_stats.histogram is None
            &&& boundaries matches Some(b) ==> (d.file_stats.histogram matches Some(h)
                && h.boundaries == b && h.counts.len() == b.len() && h.bytes.len() == b.len())
        },
{
    if let Ok(d) = commit_result::crc_delta_of(t, in_commit_timestamp, domains, sizes, boundaries) {
        lemma_all_sizes(sizes.added);
        assert(selections_of(t) =~= commit_result::removed_selections(t));
        lemma_all_selected(sizes.removed, selections_of(t));
    }
}

/// One more added file is one more in the bin that its size falls into, with its bytes, and none in
/// any other; one more removed file is one less.
pub proof fn each_file_counts_in_its_bin(
    added: Seq<i64>,
    removed: Seq<i64>,
    b: Seq<i64>,
    size: i64,
    bin: int,
)
    requires
        0 <= bin < b.len(),
        file_sizes::sizes_fault(added, removed, Some(b)) is None,
        file_sizes::sizes_fault(added.push(size), removed, Some(b)) is None,
        file_sizes::sizes_fault(added, removed.push(size), Some(b)) is None,
    ensures
        ({
            let h = file_sizes::sizes_delta(added, removed, Some(b)).histogram->0;
            let more = file_sizes::sizes_delta(added.push(size), removed, Some(b)).histogram->0;
            let less = file_sizes::sizes_delta(added, removed.push(size), Some(b)).histogram->0;
            let falls = b[bin] <= size && (bin + 1 < b.len() ==> size < b[bin + 1]);
            &&& falls ==> more.counts[bin] == h.counts[bin] + 1 && more.bytes[bin] == h.bytes[bin]
                + size
            &&& !falls ==> more.counts[bin] == h.counts[bin] && more.bytes[bin] == h.bytes[bin]
            &&& falls ==> less.counts[bin] == h.counts[bin] - 1 && less.bytes[bin] == h.bytes[bin]
                - size
            &&& !falls ==> less.counts[bin] == h.counts[bin] && less.bytes[bin] == h.bytes[bin]
        }),
        ({
            let h = file_sizes::sizes_delta(Seq::empty(), Seq::empty(), Some(b)).histogram->0;
            h.counts[bin] == 0 && h.bytes[bin] == 0
        }),
{
    assert(added.push(size).drop_last() =~= added);
    assert(removed.push(size).drop_last() =~= removed);
    file_sizes::lemma_bin_within(added, b, bin, 0);
    file_sizes::lemma_bin_within(removed, b, bin, 0);
    file_sizes::lemma_bin_within(added.push(size), b, bin, 0);
    file_sizes::lemma_bin_within(removed.push(size), b, bin, 0);
}

/// The table after a commit has the metadata, the schema and the protocol that the commit brought, and
/// otherwise those from before; its log ends with the commit; it carries what the commit changed.
pub proof fn committed_tables_hold_the_commit<D>(
    t: TxnView<D>,
    file: FileMetaView,
    delta: CrcDeltaView,
    log_root: Result<Seq<char>, ErrorView>,
)
    ensures
        commit_result::committed_of(t, file, delta, log_root) matches Ok(c) ==> (
        commit_path::parsed_commit(file) matches Ok(commit) && c.snapshot matches Some(after) && {
            let before = match t.read {
                Some(s) => s.config,
                None => t.config,
            };
            &&& c.commit_version == commit.version
            &&& after.segment.listed.commits.len() > 0 && after.segment.listed.commits.last()
                == commit
            &&& after.segment.listed.latest_commit == Some(commit)
            &&& after.segment.end_version == commit.version
            &&& after.config.version == commit.version
            &&& after.config.table_root == before.table_root
            &&& after.crc == Some(delta) && after.histogram is None
            &&& delta.metadata matches Some((m, s)) ==> after.config.metadata == m
                && after.config.logical == s
            &&& delta.metadata is None ==> after.config.metadata == before.metadata
                && after.config.logical == before.logical
            &&& delta.protocol matches Some(p) ==> after.config.protocol == p
            &&& delta.protocol is None ==> after.config.protocol == before.protocol
            &&& t.read matches Some(s) ==> after.segment.listed.commits.drop_last()
                == s.segment.listed.commits && after.segment.log_root == s.segment.log_root
                && after.segment.checkpoint_version == s.segment.checkpoint_version
            &&& t.read is None ==> after.segment.listed.commits.len() == 1
                && after.segment.checkpoint_version is None && log_root == Ok::<
                Seq<char>,
                ErrorView,
            >(after.segment.log_root) && delta.metadata is Some && delta.protocol is Some
                && c.stats.commits_since_checkpoint == 0 && c.stats.commits_since_log_compaction
                == 0
        }),
{
    if let Ok(c) = commit_result::committed_of(t, file, delta, log_root) {
        if let Some(s) = t.read {
            assert(c.snapshot->0.segment.listed.commits.drop_last() =~= s.segment.listed.commits);
        }
    }
}

/// A transaction counts as committed exactly where the committer wrote it and what it changed can be
/// told and applied.
pub proof fn transactions_are_committed_only_when_written<D>(
    t: TxnView<D>,
    response: DeltaResult<CommitResponse>,
    delta: Result<CrcDeltaView, ErrorView>,
    log_root: Result<Seq<char>, ErrorView>,
)
    ensures
        (commit_result::result_of(t, response, delta, log_root) matches Ok(
            CommitResultView::Committed(_),
        )) <==> (response matches Ok(CommitResponse::Committed { file_meta }) && delta matches Ok(d)
            && commit_result::committed_of(t, file_meta@, d, log_root) is Ok),
        response matches Ok(CommitResponse::Committed { file_meta }) ==> (delta matches Ok(d) ==> (
        commit_result::committed_of(t, file_meta@, d, log_root) matches Ok(c)
            ==> commit_result::result_of(t, response, delta, log_root) == Ok::<
            CommitResultView<D>,
            ErrorView,
        >(CommitResultView::Committed(c)))),
{
}

/// What the commit of a plan changes in the checksum is counted in the bins of the table that was
/// read, and has the in-commit timestamp and the changes of domains of the plan.
pub proof fn planned_changes_are_those_of_the_plan<D>(
    t: TxnView<D>,
    plan: CommitPlan,
    sizes: StagedSizesView,
)
    ensures
        commit_result::planned_delta(t, plan, sizes) matches Ok(d) ==> {
            &&& d.in_commit_timestamp == plan@.in_commit_timestamp
            &&& d.domains == plan@.metadata.domains
            &&& t.read is None ==> d.file_stats.histogram is None
            &&& t.read matches Some(s) ==> (s.histogram is None ==> d.file_stats.histogram is None)
                && (s.histogram matches Some(before) ==> (d.file_stats.histogram matches Some(h)
                && h.boundaries == before.boundaries))
        },
{
    if let Ok(d) = commit_result::planned_delta(t, plan, sizes) {
        checksum_changes_are_those_of_the_commit(
            t,
            plan.in_commit_timestamp,
            actions::domains_view(plan.commit_metadata.domain_metadata_changes@),
            sizes,
            commit_result::read_boundaries(t),
        );
    }
}

/// Whether the bounds of bins ascend from zero.
pub open spec fn ascend_from_zero(b: Seq<i64>) -> bool {
    b.len() > 0 && b[0] == 0 && forall|i: int, j: int| 0 <= i < j < b.len() ==> b[i] < b[j]
}

/// Whether no file of batches has a negative size.
pub open spec fn no_size_negative(batches: Seq<Seq<i64>>) -> bool {
    forall|b: int, i: int|
        0 <= b < batches.len() && 0 <= i < batches[b].len() ==> #[trigger] batches[b][i] >= 0
}

/// What is selected of sizes that are not negative is not negative.
proof fn lemma_selected_not_negative(sizes: Seq<i64>, selection: Seq<bool>)
    requires
        forall|i: int| 0 <= i < sizes.len() ==> #[trigger] sizes[i] >= 0,
    ensures
        file_sizes::none_negative(file_sizes::batch_selected(sizes, selection)),
    decreases sizes.len(),
{
    if sizes.len() > 0 {
        let front = sizes.drop_last();
        assert forall|i: int| 0 <= i < front.len() implies #[trigger] front[i] >= 0 by {
            assert(front[i] == sizes[i]);
        }
        lemma_selected_not_negative(front, selection);
        assert(sizes[sizes.len() - 1] >= 0);
    }
}

/// The sizes of all files of batches, and those of the selected ones, are not negative where none is.
proof fn lemma_sizes_not_negative(batches: Seq<Seq<i64>>, selections: Seq<Seq<bool>>)
    requires
        no_size_negative(batches),
    ensures
        file_sizes::none_negative(file_sizes::all_sizes(batches)),
        file_sizes::none_negative(file_sizes::all_selected(batches, selections)),
    decreases batches.len(),
{
    if batches.len() > 0 {
        let front = batches.drop_last();
        let last = batches.last();
        assert forall|b: int, i: int| 0 <= b < front.len() && 0 <= i < front[b].len() implies
            #[trigger] front[b][i] >= 0 by {
            assert(front[b][i] == batches[b][i]);
        }
        assert forall|i: int| 0 <= i < last.len() implies #[trigger] last[i] >= 0 by {
            assert(last[i] == batches[batches.len() - 1][i]);
        }
        lemma_sizes_not_negative(front, selections.drop_last());
        if selections.len() > 0 {
            lemma_selected_not_negative(last, selections.last());
        }
    }
}

/// What a commit changes can be told exactly where the sizes of the files of every staged batch are
/// known and neither the files nor their bytes are too many to count. A histogram needs bins that
/// ascend from zero besides.
pub proof fn changes_can_be_told_exactly_if_counted<D>(
    t: TxnView<D>,
    in_commit_timestamp: Option<i64>,
    domains: Seq<DomainMetadataView>,
    sizes: StagedSizesView,
    boundaries: Option<Seq<i64>>,
)
    ensures
        ({
            let told = commit_result::crc_delta_of(
                t,
                in_commit_timestamp,
                domains,
                sizes,
                boundaries,
            ) is Ok;
            let complete = sizes.added.len() == t.adds.len() && sizes.removed.len()
                == t.removes.len();
            let more = bytes_in(sizes.added);
            let less = all_bytes_selected(sizes.removed, selections_of(t));
            let counted = {
                &&& files_in(sizes.added) <= i64::MAX
                &&& files_selected(sizes.removed, selections_of(t)) <= i64::MAX
                &&& i64::MIN <= more <= i64::MAX && i64::MIN <= less <= i64::MAX
                &&& i64::MIN <= more - less <= i64::MAX
            };
            &&& boundaries is None ==> (told <==> complete && counted)
            &&& boundaries matches Some(b) ==> (told ==> complete && counted && ascend_from_zero(b))
            &&& boundaries matches Some(b) ==> (complete && counted && ascend_from_zero(b)
                && no_size_negative(sizes.added) && no_size_negative(sizes.removed) ==> told)
        }),
{
    if sizes.added.len() == t.adds.len() && sizes.removed.len() == t.removes.len() {
        if no_size_negative(sizes.added) && no_size_negative(sizes.removed) {
            lemma_sizes_not_negative(sizes.added, selections_of(t));
            lemma_sizes_not_negative(sizes.removed, selections_of(t));
        }
        lemma_all_sizes(sizes.added);
        assert(selections_of(t) =~= commit_result::removed_selections(t));
        lemma_all_selected(sizes.removed, selections_of(t));
    }
}

/// A table takes on new metadata and a new protocol exactly where the schema, with what column mapping
/// needs, and the features that its types need go together; what is not new stays.
pub proof fn tables_change_exactly_if_consistent(
    c: ConfigView,
    metadata: Option<(MetadataView, Seq<FieldView>)>,
    protocol: Option<ProtocolView>,
    version: Version,
)
    ensures
        ({
            let (m, s) = if metadata is Some {
                metadata->0
            } else {
                (c.metadata, c.logical)
            };
            let p = if protocol is Some {
                protocol->0
            } else {
                c.protocol
            };
            let r = table_configuration::config_after(c, metadata, protocol, version);
            &&& metadata is None && protocol is None ==> r is Ok
            &&& metadata is Some || protocol is Some ==> (r is Ok
                <==> table_configuration::config_fault(m, s, p) is None)
            &&& r matches Ok(after) ==> after.metadata == m && after.logical == s && after.protocol
                == p && after.version == version && after.table_root == c.table_root
        }),
{
}

/// What the committer wrote makes a new table exactly where the file is a commit, it is the next one of
/// the table or the first one of a new table, and the table can take on what the commit brought.
pub proof fn commits_make_tables_exactly_if<D>(
    t: TxnView<D>,
    file: FileMetaView,
    delta: CrcDeltaView,
    log_root: Result<Seq<char>, ErrorView>,
)
    ensures
        commit_result::committed_of(t, file, delta, log_root) is Ok <==> (commit_path::parsed_commit(
            file,
        ) matches Ok(commit) && {
            &&& t.read matches Some(s) ==> log_segment::append_fault(s.segment, commit) is None
                && table_configuration::config_after(
                s.config,
                delta.metadata,
                delta.protocol,
                commit.version,
            ) is Ok
            &&& t.read is None ==> log_root is Ok && commit.version == 0 && (
            commit.file_type is Commit || commit.file_type is StagedCommit) && delta.metadata is Some
                && delta.protocol is Some && table_configuration::config_after(
                t.config,
                delta.metadata,
                delta.protocol,
                0,
            ) is Ok
        }),
{
}

} // verus!
