//! What is read of the log, and how.
use vstd::prelude::*;

use crate::action_schemas;
use crate::actions::{self, SidecarView};
use crate::bindings;
use crate::checkpoint_read::{self, SearchView};
use crate::commit_cover;
use crate::error::ErrorView;
use crate::expressions::PredicateView;
use crate::log_segment::{self, ListedView, SegmentView};
use crate::log_validation;
use crate::path::{FileMetaView, LogPathFileType, LogPathView};
use crate::schema::{self, DataTypeView, FieldView, PrimitiveType};
use crate::schema_compare;
use crate::schema_project;
use crate::segment_listing::{self, LastCheckpointHint, SnapshotListing};
use crate::Version;

verus! {

/// What is selected of a list is what is to be kept, all of it and nothing else.
pub proof fn selected_files_are_those_kept(
    s: Seq<LogPathView>,
    keep: spec_fn(LogPathView) -> bool,
    p: LogPathView,
)
    ensures
        log_segment::selected(s, keep).contains(p) <==> s.contains(p) && keep(p),
    decreases s.len(),
{
    let t = log_segment::selected(s, keep);
    if s.len() > 0 {
        let front = s.drop_last();
        selected_files_are_those_kept(front, keep, p);
        let before = log_segment::selected(front, keep);
        if t.contains(p) {
            let i = choose|i: int| 0 <= i < t.len() && t[i] == p;
            if i < before.len() {
                assert(before[i] == p);
                assert(before.contains(p));
                let k = choose|k: int| 0 <= k < front.len() && front[k] == p;
                assert(s[k] == p);
            } else {
                assert(s[s.len() - 1] == p);
            }
        }
        if s.contains(p) && keep(p) {
            let k = choose|k: int| 0 <= k < s.len() && s[k] == p;
            if k < front.len() {
                assert(front[k] == p);
                assert(before.contains(p));
                let i = choose|i: int| 0 <= i < before.len() && before[i] == p;
                assert(t[i] == p);
            } else {
                assert(t[t.len() - 1] == p);
            }
        }
    }
}

/// Cutting a segment at the version of a checksum puts later commits on one side and the others, as
/// far as they are above the checkpoint, on the other; a compaction goes to the side that it lies in
/// wholly, and to neither where it lies across. The checkpoint stays with the earlier side. Neither
/// side knows of a checksum.
pub proof fn crc_split_cuts_at_the_version(s: SegmentView, v: Version, p: LogPathView)
    ensures
        ({
            let later = commit_cover::after_crc(s, v);
            let earlier = commit_cover::through_crc(s, v);
            &&& later.listed.commits.contains(p) <==> s.listed.commits.contains(p) && v < p.version
                && p.version <= s.end_version
            &&& earlier.listed.commits.contains(p) <==> s.listed.commits.contains(p) && p.version
                <= v && (s.checkpoint_version matches Some(cp) ==> cp < p.version)
            &&& later.listed.compactions.contains(p) <==> s.listed.compactions.contains(p) && v
                < p.version && (p.file_type matches LogPathFileType::CompactedCommit { hi } && hi
                <= s.end_version)
            &&& earlier.listed.compactions.contains(p) <==> s.listed.compactions.contains(p) && (
            s.checkpoint_version matches Some(cp) ==> cp < p.version) && (
            p.file_type matches LogPathFileType::CompactedCommit { hi } && hi <= v)
            &&& later.listed.parts.len() == 0 && later.checkpoint_version is None
            &&& earlier.listed.parts == s.listed.parts && earlier.checkpoint_version
                == s.checkpoint_version
            &&& later.log_root == s.log_root && earlier.log_root == s.log_root
            &&& later.end_version == s.end_version && earlier.end_version == s.end_version
            &&& later.listed.crc is None && earlier.listed.crc is None
        }),
{
    let lo = s.checkpoint_version;
    let end = s.end_version;
    lemma_compactions_between(s.listed.compactions, Some(v), end, p);
    lemma_compactions_between(s.listed.compactions, lo, v, p);
    lemma_commits_between(s.listed.commits, Some(v), end, p);
    lemma_commits_between(s.listed.commits, lo, v, p);
}

proof fn lemma_commits_between(
    s: Seq<LogPathView>,
    lo: Option<Version>,
    hi: Version,
    p: LogPathView,
)
    ensures
        commit_cover::commits_between(s, lo, hi).contains(p) <==> s.contains(p) && (
        lo matches Some(lo) ==> lo < p.version) && p.version <= hi,
{
    let keep = |p: LogPathView| (lo matches Some(lo) ==> lo < p.version) && p.version <= hi;
    selected_files_are_those_kept(s, keep, p);
}

proof fn lemma_compactions_between(
    s: Seq<LogPathView>,
    lo: Option<Version>,
    end: Version,
    p: LogPathView,
)
    ensures
        commit_cover::compactions_between(s, lo, end).contains(p) <==> s.contains(p) && (
        lo matches Some(lo) ==> lo < p.version) && (p.file_type matches LogPathFileType::CompactedCommit {
            hi,
        } && hi <= end),
{
    let keep = |p: LogPathView|
        p.file_type is CompactedCommit && (lo matches Some(lo) ==> lo < p.version)
            && log_validation::compaction_hi(p) <= end;
    selected_files_are_those_kept(s, keep, p);
}

/// What is to be published is every staged commit above the last published version, and nothing else.
pub proof fn unpublished_commits_are_the_later_staged_ones(listed: ListedView, p: LogPathView)
    ensures
        commit_cover::unpublished(listed).contains(p) <==> listed.commits.contains(p)
            && p.file_type is StagedCommit && (listed.max_published matches Some(v) ==> v
            < p.version),
{
    let keep = |p: LogPathView|
        p.file_type is StagedCommit && (listed.max_published matches Some(v) ==> v < p.version);
    selected_files_are_those_kept(listed.commits, keep, p);
}

/// Each staged commit is published under the name of its version, from where it is, in order; all of
/// them are, or none.
pub proof fn every_staged_commit_is_published(root: Seq<char>, s: Seq<LogPathView>)
    ensures
        commit_cover::catalog_commits_of(root, s) matches Ok(c) ==> {
            &&& c.len() == s.len()
            &&& forall|i: int|
                0 <= i < s.len() ==> {
                    &&& (#[trigger] c[i]).version == s[i].version
                    &&& c[i].location == s[i].location.location
                    &&& bindings::joined_url(
                        root,
                        commit_cover::commit_file_name(s[i].version),
                    ) matches Ok(u) && u == c[i].published_location
                }
        },
    decreases s.len(),
{
    if s.len() > 0 {
        let front = s.drop_last();
        every_staged_commit_is_published(root, front);
        if let Ok(c) = commit_cover::catalog_commits_of(root, s) {
            let before = commit_cover::catalog_commits_of(root, front)->Ok_0;
            assert forall|i: int| 0 <= i < s.len() implies {
                &&& (#[trigger] c[i]).version == s[i].version
                &&& c[i].location == s[i].location.location
                &&& bindings::joined_url(
                    root,
                    commit_cover::commit_file_name(s[i].version),
                ) matches Ok(u) && u == c[i].published_location
            } by {
                if i < front.len() {
                    assert(before[i] == c[i]);
                    assert(front[i] == s[i]);
                }
            }
        }
    }
}

/// Files are read from the last to the first.
pub proof fn files_are_read_backwards(s: Seq<LogPathView>)
    ensures
        commit_cover::locations_descending(s).len() == s.len(),
        forall|i: int|
            0 <= i < s.len() ==> #[trigger] commit_cover::locations_descending(s)[i] == s[s.len() - 1
                - i].location,
        checkpoint_read::locations(s).len() == s.len(),
        forall|i: int|
            0 <= i < s.len() ==> #[trigger] checkpoint_read::locations(s)[i] == s[i].location,
{
}

/// The log is listed from the checkpoint of the hint where that is not past the version asked for; else
/// backwards from that version; and from the start where there is neither a hint nor a version.
pub proof fn hints_are_used_unless_past_the_version(
    hint: Option<LastCheckpointHint>,
    version: Option<Version>,
)
    ensures
        ({
            let r = segment_listing::snapshot_listing_of(hint, version);
            let useful = hint is Some && (version is Some ==> hint->0.version <= version->0);
            &&& useful ==> r == (SnapshotListing::FromCheckpoint {
                version: hint->0.version,
                end_version: version,
            })
            &&& !useful && version is Some ==> r == (SnapshotListing::BackwardScan {
                end_version: version->0,
            })
            &&& hint is None && version is None ==> r is FromStart
        }),
{
}

/// The changes between two versions are read from a segment that begins with the first and, where the
/// second is given, ends with it. There is one exactly where the versions are in order, the commits
/// that are listed begin with the first, and they make a segment.
pub proof fn table_changes_begin_and_end_as_asked(
    listed: ListedView,
    log_root: Seq<char>,
    start: Version,
    end: Option<Version>,
)
    ensures
        segment_listing::table_changes_segment(listed, log_root, start, end) matches Ok(s) ==> {
            &&& listed.commits.len() > 0 && listed.commits[0].version == start
            &&& end matches Some(v) ==> s.end_version == v && start <= v
            &&& s.log_root == log_root && s.last_checkpoint is None
        },
        segment_listing::table_changes_segment(listed, log_root, start, end) is Ok <==> {
            &&& end matches Some(v) ==> start <= v
            &&& listed.commits.len() > 0 && listed.commits[0].version == start
            &&& log_segment::segment_of(listed, log_root, end, None) is Ok
        },
        segment_listing::table_changes_segment(listed, log_root, start, end) is Ok
            ==> segment_listing::table_changes_segment(listed, log_root, start, end)
            == log_segment::segment_of(listed, log_root, end, None),
{
}

/// A projection has the columns of the given names, in the order of the names. It exists exactly where
/// the schema has all of them.
pub proof fn projections_have_the_named_columns(s: Seq<FieldView>, names: Seq<Seq<char>>)
    ensures
        schema_project::projected(s, names) is Ok <==> forall|i: int|
            0 <= i < names.len() ==> schema::find_field(s, #[trigger] names[i]) is Some,
        schema_project::projected(s, names) matches Ok(t) ==> t.len() == names.len() && forall|i: int|
            0 <= i < names.len() ==> schema::find_field(s, names[i]) == Some(#[trigger] t[i])
                && t[i].name == names[i],
    decreases names.len(),
{
    if names.len() > 0 {
        let front = names.drop_last();
        let n = names.len() - 1;
        projections_have_the_named_columns(s, front);
        schema::lemma_field_position(s, names.last());
        if schema_project::projected(s, names) is Ok {
            assert forall|i: int| 0 <= i < names.len() implies schema::find_field(
                s,
                #[trigger] names[i],
            ) is Some by {
                if i < n {
                    assert(front[i] == names[i]);
                }
            }
            let t = schema_project::projected(s, names)->Ok_0;
            let before = schema_project::projected(s, front)->Ok_0;
            assert forall|i: int| 0 <= i < names.len() implies schema::find_field(s, names[i])
                == Some(#[trigger] t[i]) && t[i].name == names[i] by {
                if i < n {
                    assert(front[i] == names[i]);
                    assert(before[i] == t[i]);
                }
            }
        }
        if forall|i: int|
            0 <= i < names.len() ==> schema::find_field(s, #[trigger] names[i]) is Some {
            assert(schema::find_field(s, names[n]) is Some);
            assert forall|i: int| 0 <= i < front.len() implies schema::find_field(
                s,
                #[trigger] front[i],
            ) is Some by {
                assert(front[i] == names[i]);
            }
        }
    }
}

/// Whether a predicate holds of a row, given which of its columns are not null and whether the
/// predicate of the caller holds of it.
pub open spec fn holds<P>(
    p: PredicateView<P>,
    not_null: spec_fn(Seq<Seq<char>>) -> bool,
    given: spec_fn(P) -> bool,
) -> bool
    decreases p,
{
    match p {
        PredicateView::IsNotNull(c) => not_null(c),
        PredicateView::And(a, b) => holds(*a, not_null, given) && holds(*b, not_null, given),
        PredicateView::Or(a, b) => holds(*a, not_null, given) || holds(*b, not_null, given),
        PredicateView::Given(g) => given(g),
    }
}

/// Whether a row holds an action, as far as the column that no such action leaves null tells.
pub open spec fn row_holds(action: Seq<char>, not_null: spec_fn(Seq<Seq<char>>) -> bool) -> bool {
    if action == "metaData"@ {
        not_null(seq!["metaData"@, "id"@])
    } else if action == "protocol"@ {
        not_null(seq!["protocol"@, "minReaderVersion"@])
    } else if action == "txn"@ {
        not_null(seq!["txn"@, "appId"@])
    } else {
        not_null(seq!["domainMetadata"@, "domain"@])
    }
}

/// Whether an action is one by which rows can be skipped.
pub open spec fn can_be_skipped_by(action: Seq<char>) -> bool {
    action == "metaData"@ || action == "protocol"@ || action == "txn"@ || action
        == "domainMetadata"@
}

proof fn lemma_some_identifying_column<P>(
    s: Seq<FieldView>,
    not_null: spec_fn(Seq<Seq<char>>) -> bool,
    given: spec_fn(P) -> bool,
)
    requires
        s.len() > 0,
        checkpoint_read::all_identified(s),
    ensures
        holds(checkpoint_read::some_identifying_column::<P>(s), not_null, given) <==> exists|i: int|
            0 <= i < s.len() && row_holds((#[trigger] s[i]).name, not_null),
    decreases s.len(),
{
    let n = s.len() - 1;
    assert(checkpoint_read::identifying_column(s[n].name) is Some);
    let last = PredicateView::<P>::IsNotNull(checkpoint_read::identifying_column(s.last().name)->0);
    assert(holds(last, not_null, given) == row_holds(s[n].name, not_null));
    if s.len() > 1 {
        let front = s.drop_last();
        assert forall|i: int| 0 <= i < front.len() implies checkpoint_read::identifying_column(
            (#[trigger] front[i]).name,
        ) is Some by {
            assert(front[i] == s[i]);
        }
        lemma_some_identifying_column::<P>(front, not_null, given);
        if exists|i: int| 0 <= i < front.len() && row_holds((#[trigger] front[i]).name, not_null) {
            let i = choose|i: int|
                0 <= i < front.len() && row_holds((#[trigger] front[i]).name, not_null);
            assert(s[i] == front[i]);
        }
        if exists|i: int| 0 <= i < s.len() && row_holds((#[trigger] s[i]).name, not_null) {
            let i = choose|i: int| 0 <= i < s.len() && row_holds((#[trigger] s[i]).name, not_null);
            if i < n {
                assert(front[i] == s[i]);
            }
        }
    }
}

/// A checkpoint is read with a predicate that no row needed fails: it holds of every row that holds one
/// of the actions asked for, as long as the predicate of the caller does. It also skips whatever it
/// can: a row that holds none of them, where each of them is one to skip by, and a row that the
/// predicate of the caller rejects.
pub proof fn needed_rows_are_not_skipped<P>(
    s: Seq<FieldView>,
    given: Option<P>,
    not_null: spec_fn(Seq<Seq<char>>) -> bool,
    caller: spec_fn(P) -> bool,
)
    ensures
        ({
            let predicate = checkpoint_read::effective_predicate_of::<P>(s, given);
            let by_action = s.len() > 0 && forall|i: int|
                0 <= i < s.len() ==> can_be_skipped_by((#[trigger] s[i]).name);
            let needed = by_action ==> exists|i: int|
                0 <= i < s.len() && row_holds((#[trigger] s[i]).name, not_null);
            let wanted = given is Some ==> caller(given->0);
            &&& predicate is None <==> !by_action && given is None
            &&& predicate matches Some(p) ==> (holds(p, not_null, caller) <==> needed && wanted)
        }),
{
    assert(checkpoint_read::all_identified(s) == forall|i: int|
        0 <= i < s.len() ==> can_be_skipped_by((#[trigger] s[i]).name)) by {
        assert forall|i: int| 0 <= i < s.len() implies checkpoint_read::identifying_column(
            (#[trigger] s[i]).name,
        ) is Some == can_be_skipped_by(s[i].name) by {}
        if checkpoint_read::all_identified(s) {
            assert forall|i: int| 0 <= i < s.len() implies can_be_skipped_by(
                (#[trigger] s[i]).name,
            ) by {
                assert(checkpoint_read::identifying_column(s[i].name) is Some);
            }
        }
    }
    if s.len() > 0 && checkpoint_read::all_identified(s) {
        lemma_some_identifying_column::<P>(s, not_null, caller);
        let p = checkpoint_read::some_identifying_column::<P>(s);
        if let Some(g) = given {
            let both = PredicateView::And(Box::new(p), Box::new(PredicateView::Given(g)));
            assert(holds(PredicateView::Given(g), not_null, caller) == caller(g));
            assert(holds(both, not_null, caller) == (holds(p, not_null, caller) && caller(g)));
        }
    } else if let Some(g) = given {
        assert(holds(PredicateView::Given(g), not_null, caller) == caller(g));
    }
}

/// How wide a type of integers is; zero for any other.
pub open spec fn integer_width(p: PrimitiveType) -> int {
    match p {
        PrimitiveType::Byte => 8,
        PrimitiveType::Short => 16,
        PrimitiveType::Integer => 32,
        PrimitiveType::Long => 64,
        _ => 0,
    }
}

/// A type widens to itself; integers widen to wider integers, and single to double precision; nothing
/// else does. Statistics can also be read as dates and timestamps where files store them as the same
/// integers.
pub proof fn types_widen_without_loss(a: PrimitiveType, b: PrimitiveType)
    ensures
        schema_compare::widens_to(a, b) <==> a == b || (0 < integer_width(a) < integer_width(b)) || (
        a is Float && b is Double),
        schema_compare::stats_type_compatible(a, b) <==> schema_compare::widens_to(a, b) || (
        a is Integer && b is Date) || (a is Long && (b is Timestamp || b is TimestampNtz)),
{
}

/// Where fields can be read as others, each is read under its own name, with nulls allowed where it may
/// hold them and as a type that it can be read as; what is read but not there may be null.
pub proof fn readable_fields_are_all_read(have: Seq<FieldView>, read: Seq<FieldView>)
    requires
        schema_compare::fields_readable_with(schema_compare::all_lower(), have, read),
    ensures
        forall|i: int|
            0 <= i < have.len() ==> exists|j: int|
                0 <= j < read.len() && (#[trigger] read[j]).name == (#[trigger] have[i]).name && (
                have[i].nullable ==> read[j].nullable) && schema_compare::readable_as(
                    have[i].data_type,
                    read[j].data_type,
                ),
        forall|j: int|
            0 <= j < read.len() ==> (#[trigger] read[j]).nullable || exists|i: int|
                0 <= i < have.len() && (#[trigger] have[i]).name == read[j].name,
{
    let lower = schema_compare::all_lower();
    let a = schema_compare::lower_names(lower, have);
    let b = schema_compare::lower_names(lower, read);
    assert forall|i: int| 0 <= i < have.len() implies exists|j: int|
        0 <= j < read.len() && (#[trigger] read[j]).name == (#[trigger] have[i]).name && (
        have[i].nullable ==> read[j].nullable) && schema_compare::readable_as(
            have[i].data_type,
            read[j].data_type,
        ) by {
        assert(b.contains(a[i]));
        let j = choose|j: int| 0 <= j < b.len() && b[j] == a[i];
        assert(read[j].name == have[i].name);
    }
    assert forall|j: int| 0 <= j < read.len() implies (#[trigger] read[j]).nullable || exists|i: int|
        0 <= i < have.len() && (#[trigger] have[i]).name == read[j].name by {
        if !read[j].nullable {
            assert(a.contains(b[j]));
            let i = choose|i: int| 0 <= i < a.len() && a[i] == b[j];
            assert(have[i].name == read[j].name);
        }
    }
}

/// Primitive types can be read as those that they widen to, and as no others; arrays and maps as those
/// of types that theirs can be read as, where nulls are allowed if they may hold them.
pub proof fn readable_types_widen(
    a: PrimitiveType,
    b: PrimitiveType,
    s: DataTypeView,
    t: DataTypeView,
    u: DataTypeView,
    v: DataTypeView,
    m: bool,
    n: bool,
)
    ensures
        schema_compare::readable_as(DataTypeView::Primitive(a), DataTypeView::Primitive(b))
            <==> schema_compare::widens_to(a, b),
        schema_compare::readable_as(
            DataTypeView::Array(Box::new(s), m),
            DataTypeView::Array(Box::new(t), n),
        ) <==> schema_compare::readable_as(s, t) && (m ==> n),
        schema_compare::readable_as(
            DataTypeView::Mapping(Box::new(s), Box::new(u), m),
            DataTypeView::Mapping(Box::new(t), Box::new(v), n),
        ) <==> schema_compare::readable_as(s, t) && schema_compare::readable_as(u, v) && (m ==> n),
{
}

/// Each sidecar action names a file in the directory for sidecars, with the size and the time that it
/// tells; the files come in the order of the actions, all of them, or none.
pub proof fn every_sidecar_is_a_file(s: Seq<SidecarView>, log_root: Seq<char>)
    ensures
        actions::sidecar_files(s, log_root) matches Ok(f) ==> {
            &&& f.len() == s.len()
            &&& forall|i: int|
                0 <= i < s.len() ==> {
                    &&& (#[trigger] f[i]).size == s[i].size_in_bytes
                    &&& f[i].last_modified == s[i].modification_time
                    &&& bindings::joined_url(log_root, "_sidecars/"@) matches Ok(dir)
                        && bindings::joined_url(dir, s[i].path) matches Ok(u) && u == f[i].location
                }
        },
    decreases s.len(),
{
    if s.len() > 0 {
        let front = s.drop_last();
        every_sidecar_is_a_file(front, log_root);
        if let Ok(f) = actions::sidecar_files(s, log_root) {
            let before = actions::sidecar_files(front, log_root)->Ok_0;
            assert forall|i: int| 0 <= i < s.len() implies {
                &&& (#[trigger] f[i]).size == s[i].size_in_bytes
                &&& f[i].last_modified == s[i].modification_time
                &&& bindings::joined_url(log_root, "_sidecars/"@) matches Ok(dir)
                    && bindings::joined_url(dir, s[i].path) matches Ok(u) && u == f[i].location
            } by {
                if i < front.len() {
                    assert(before[i] == f[i]);
                    assert(front[i] == s[i]);
                }
            }
        }
    }
}

/// Whether what a search ended with is a schema and sidecar files.
pub open spec fn search_found(
    r: Result<SearchView, ErrorView>,
    schema: Option<Seq<FieldView>>,
    sidecars: Seq<FileMetaView>,
) -> bool {
    r == Ok::<SearchView, ErrorView>(SearchView::Found { schema, sidecars })
}

/// File actions are read with the schema of the first sidecar where the checkpoint has sidecars. Where
/// it has none, they are read with the schema of the checkpoint, which the hint gives or else its
/// footer; a checkpoint in several parts never has any. Without a checkpoint there is no schema.
pub proof fn file_actions_are_read_with_the_right_schema(
    s: SegmentView,
    footer: Seq<FieldView>,
    refs: Seq<SidecarView>,
    sidecar_footer: Seq<FieldView>,
)
    ensures
        ({
            let r = checkpoint_read::search_run(s, footer, refs, sidecar_footer);
            let own = match s.last_checkpoint {
                Some(h) => match h.schema {
                    Some(schema) => schema,
                    None => footer,
                },
                None => footer,
            };
            let none = Seq::<FileMetaView>::empty();
            &&& s.listed.parts.len() == 0 ==> search_found(r, None, none)
            &&& s.listed.parts.len() > 0 ==> {
                let part = s.listed.parts[0];
                let one_file = part.file_type is SinglePartCheckpoint
                    || part.file_type is UuidCheckpoint;
                let parquet = one_file && part.extension == "parquet"@;
                let json = part.file_type is UuidCheckpoint && part.extension == "json"@;
                let files = actions::sidecar_files(refs, s.log_root);
                &&& part.file_type is MultiPartCheckpoint ==> search_found(r, Some(own), none)
                &&& parquet && schema::find_field(own, "sidecar"@) is None ==> search_found(
                    r,
                    Some(own),
                    none,
                )
                &&& (parquet && schema::find_field(own, "sidecar"@) is Some || json) ==> {
                    &&& files matches Err(e) ==> r == Err::<SearchView, ErrorView>(e)
                    &&& files is Ok && files->Ok_0.len() > 0 ==> search_found(
                        r,
                        Some(sidecar_footer),
                        files->Ok_0,
                    )
                    &&& files is Ok && files->Ok_0.len() == 0 ==> search_found(
                        r,
                        if json {
                            None
                        } else {
                            Some(own)
                        },
                        none,
                    )
                }
            }
        }),
{
    checkpoint_read::schema_search_finds(s, footer, refs, sidecar_footer);
    reveal_strlit("json");
    reveal_strlit("parquet");
    assert("json"@.len() != "parquet"@.len());
    if let Ok(files) = actions::sidecar_files(refs, s.log_root) {
        if files.len() == 0 {
            assert(files =~= Seq::<FileMetaView>::empty());
        }
    }
}

/// A checkpoint is read with the actions asked for. Where add actions are among them, they have parsed
/// statistics and partition values exactly where these can be used; where there are sidecars, sidecar
/// actions are read too. Every other column is as it was asked for.
pub proof fn checkpoints_are_read_with_what_is_asked_for(
    actions: Seq<FieldView>,
    has_sidecars: bool,
    stats: Option<Seq<FieldView>>,
    partition: Option<Seq<FieldView>>,
)
    requires
        schema::field_names(actions).no_duplicates(),
        schema::find_field(actions, "sidecar"@) is None,
    ensures
        !has_sidecars && stats is None && partition is None
            ==> checkpoint_read::checkpoint_schema_of(actions, has_sidecars, stats, partition) == Ok::<
            Seq<FieldView>,
            ErrorView,
        >(actions),
        checkpoint_read::checkpoint_schema_of(actions, has_sidecars, stats, partition) matches Ok(t)
            ==> {
            &&& t.len() == actions.len() + (if has_sidecars {
                1int
            } else {
                0
            })
            &&& forall|i: int|
                0 <= i < actions.len() ==> (#[trigger] t[i]).name == actions[i].name && (
                actions[i].name != "add"@ ==> t[i] == actions[i])
            &&& has_sidecars ==> t.last().name == "sidecar"@ && t.last().nullable
            &&& forall|i: int|
                0 <= i < actions.len() && actions[i].name == "add"@ && (stats is Some
                    || partition is Some) ==> (actions[i].data_type matches DataTypeView::Struct(
                    inner,
                ) && (#[trigger] t[i]).data_type == DataTypeView::Struct(
                    schema::keyed(
                        checkpoint_read::augmented_add_fields(inner, stats, partition),
                    ),
                ) && t[i].nullable == actions[i].nullable)
        },
{
    if let Ok(t) = checkpoint_read::checkpoint_schema_of(actions, has_sidecars, stats, partition) {
        schema::lemma_field_position(actions, "add"@);
        schema::lemma_field_position(actions, "sidecar"@);
        if has_sidecars || stats is Some || partition is Some {
            let fields = checkpoint_read::with_parsed_columns(actions, stats, partition)->Ok_0;
            assert(fields.len() == actions.len());
            assert forall|i: int| 0 <= i < actions.len() implies (#[trigger] fields[i]).name
                == actions[i].name && (actions[i].name != "add"@ ==> fields[i] == actions[i]) by {}
            if let Some(p) = schema::field_position(actions, "add"@) {
                assert forall|i: int| 0 <= i < actions.len() && actions[i].name == "add"@ implies i
                    == p by {
                    assert(schema::field_names(actions)[i] == schema::field_names(actions)[p]);
                }
            }
            let all = if has_sidecars {
                fields.push(
                    action_schemas::action_field(
                        "sidecar"@,
                        action_schemas::sidecar_fields(),
                    ),
                )
            } else {
                fields
            };
            assert(schema::field_names(all).no_duplicates()) by {
                assert forall|i: int, j: int| 0 <= i < j < all.len() implies schema::field_names(
                    all,
                )[i] != schema::field_names(all)[j] by {
                    assert(fields[i].name == actions[i].name);
                    if j < fields.len() {
                        assert(fields[j].name == actions[j].name);
                        assert(schema::field_names(actions)[i] != schema::field_names(actions)[j]);
                    } else {
                        assert(actions[i].name != "sidecar"@);
                    }
                }
            }
            schema::lemma_keyed_distinct(all);
            assert(t == all);
        }
    }
}

/// The add actions of a checkpoint get the parsed columns that are to be used, after their own, each
/// with the fields that were asked for.
pub proof fn parsed_columns_come_last(
    fields: Seq<FieldView>,
    stats: Option<Seq<FieldView>>,
    partition: Option<Seq<FieldView>>,
)
    ensures
        ({
            let t = checkpoint_read::augmented_add_fields(fields, stats, partition);
            let n = fields.len() as int;
            let m = n + (if stats is Some {
                1int
            } else {
                0
            });
            &&& t.len() == m + (if partition is Some {
                1int
            } else {
                0
            })
            &&& forall|i: int| 0 <= i < n ==> #[trigger] t[i] == fields[i]
            &&& stats matches Some(s) ==> t[n].name == "stats_parsed"@ && t[n].data_type
                == DataTypeView::Struct(s)
            &&& partition matches Some(p) ==> t[m].name == "partitionValues_parsed"@
                && t[m].data_type == DataTypeView::Struct(p)
        }),
{
}

/// Parsed statistics and partition values are used exactly where file actions are read, they are asked
/// for, the schema of the file actions is known, and it has them in a form that can be read.
pub proof fn parsed_columns_are_used_where_they_can_be(
    actions: Seq<FieldView>,
    file_schema: Option<Seq<FieldView>>,
    asked: Option<Seq<FieldView>>,
)
    ensures
        ({
            let file_actions = schema::find_field(actions, "add"@) is Some || schema::find_field(
                actions,
                "remove"@,
            ) is Some;
            let stats = checkpoint_read::usable_stats(actions, file_schema, asked);
            let partition = checkpoint_read::usable_partition(actions, file_schema, asked);
            &&& stats is Some ==> stats == asked
            &&& partition is Some ==> partition == asked
            &&& stats is Some <==> file_actions && asked is Some && file_schema is Some
                && checkpoint_read::stats_parsed_usable(file_schema->0, asked->0)
            &&& partition is Some <==> file_actions && asked is Some && file_schema is Some
                && checkpoint_read::partition_values_usable(file_schema->0, asked->0)
        }),
{
}

/// Fields are compatible with those that are needed exactly where each field of a name that both have
/// is: structs field by field, primitive types by the rules for statistics. What only one of them has
/// does not matter.
pub proof fn compatible_fields_have_compatible_types(
    available: Seq<FieldView>,
    needed: Seq<FieldView>,
    a: PrimitiveType,
    b: PrimitiveType,
)
    ensures
        checkpoint_read::fields_compatible(available, needed) <==> forall|i: int|
            0 <= i < needed.len() && schema::find_field(available, (#[trigger] needed[i]).name) is Some
                ==> checkpoint_read::types_compatible(
                schema::find_field(available, needed[i].name)->0.data_type,
                needed[i].data_type,
            ),
        checkpoint_read::types_compatible(
            DataTypeView::Struct(available),
            DataTypeView::Struct(needed),
        ) <==> checkpoint_read::fields_compatible(available, needed),
        checkpoint_read::types_compatible(DataTypeView::Primitive(a), DataTypeView::Primitive(b))
            <==> schema_compare::stats_type_compatible(a, b),
{
    assert(checkpoint_read::types_compatible(
        DataTypeView::Struct(available),
        DataTypeView::Struct(needed),
    ) == checkpoint_read::fields_compatible(available, needed));
    if forall|i: int|
        0 <= i < needed.len() && schema::find_field(available, (#[trigger] needed[i]).name) is Some
            ==> checkpoint_read::types_compatible(
            schema::find_field(available, needed[i].name)->0.data_type,
            needed[i].data_type,
        ) {
        assert(checkpoint_read::fields_compatible(available, needed));
    }
}

/// Whether the column of a name is a struct of the given fields.
pub open spec fn has_inner(s: Seq<FieldView>, name: Seq<char>, inner: Seq<FieldView>) -> bool {
    schema::find_field(s, name) is Some && schema::find_field(s, name)->0.data_type
        == DataTypeView::Struct(inner)
}

/// Whether the smallest or the largest values among parsed statistics can be used: there are none, or
/// they are a struct whose fields are compatible with those that are needed, if any are.
pub open spec fn bounds_can_be_used(
    parsed: Seq<FieldView>,
    needed: Seq<FieldView>,
    kind: Seq<char>,
) -> bool {
    schema::find_field(parsed, kind) is Some ==> {
        &&& schema::find_field(parsed, kind)->0.data_type is Struct
        &&& forall|a: Seq<FieldView>, n: Seq<FieldView>|
            #![trigger has_inner(parsed, kind, a), has_inner(needed, kind, n)]
            has_inner(parsed, kind, a) && has_inner(needed, kind, n)
                ==> checkpoint_read::fields_compatible(a, n)
    }
}

/// Whether the add actions of a schema have a column of a name that is a struct of the given fields.
pub open spec fn adds_have(s: Seq<FieldView>, name: Seq<char>, inner: Seq<FieldView>) -> bool {
    exists|add: Seq<FieldView>| #[trigger] has_inner(s, "add"@, add) && has_inner(add, name, inner)
}

/// Parsed statistics of a checkpoint can be used exactly where its add actions have them, as a struct,
/// and both the smallest and the largest values in them can be used.
pub proof fn parsed_stats_can_be_used_exactly_if(
    checkpoint: Seq<FieldView>,
    needed: Seq<FieldView>,
    parsed: Seq<FieldView>,
)
    ensures
        adds_have(checkpoint, "stats_parsed"@, parsed) ==> (checkpoint_read::stats_parsed_usable(
            checkpoint,
            needed,
        ) <==> bounds_can_be_used(parsed, needed, "minValues"@) && bounds_can_be_used(
            parsed,
            needed,
            "maxValues"@,
        )),
        checkpoint_read::stats_parsed_usable(checkpoint, needed) ==> exists|p: Seq<FieldView>|
            #[trigger] adds_have(checkpoint, "stats_parsed"@, p),
{
    lemma_bounds(parsed, needed, "minValues"@);
    lemma_bounds(parsed, needed, "maxValues"@);
    if checkpoint_read::stats_parsed_usable(checkpoint, needed) {
        lemma_adds_have(checkpoint, "stats_parsed"@);
    }
}

/// A struct column of the add actions is there with its fields.
proof fn lemma_adds_have(s: Seq<FieldView>, name: Seq<char>)
    requires
        checkpoint_read::add_subfield(s, name) is Some,
        checkpoint_read::add_subfield(s, name)->0.data_type is Struct,
    ensures
        adds_have(s, name, checkpoint_read::add_subfield(s, name)->0.data_type->Struct_0),
{
    let add = schema::find_field(s, "add"@)->0.data_type->Struct_0;
    assert(has_inner(s, "add"@, add));
    assert(has_inner(add, name, checkpoint_read::add_subfield(s, name)->0.data_type->Struct_0));
}

/// The smallest or largest values can be used exactly where they are usable.
proof fn lemma_bounds(parsed: Seq<FieldView>, needed: Seq<FieldView>, kind: Seq<char>)
    ensures
        checkpoint_read::stats_values_usable(parsed, needed, kind) <==> bounds_can_be_used(
            parsed,
            needed,
            kind,
        ),
{
    if let Some(f) = schema::find_field(parsed, kind) {
        if let DataTypeView::Struct(a) = f.data_type {
            assert(has_inner(parsed, kind, a));
            if let Some(g) = schema::find_field(needed, kind) {
                if let DataTypeView::Struct(n) = g.data_type {
                    assert(has_inner(needed, kind, n));
                }
            }
        }
    }
}

/// Parsed partition values of a checkpoint can be used exactly where its add actions have them, as a
/// struct whose fields are compatible with the partition columns that are needed.
pub proof fn parsed_partition_values_can_be_used_exactly_if(
    checkpoint: Seq<FieldView>,
    needed: Seq<FieldView>,
    parsed: Seq<FieldView>,
)
    ensures
        adds_have(checkpoint, "partitionValues_parsed"@, parsed) ==> (
        checkpoint_read::partition_values_usable(checkpoint, needed)
            <==> checkpoint_read::fields_compatible(parsed, needed)),
        checkpoint_read::partition_values_usable(checkpoint, needed) ==> exists|p: Seq<FieldView>|
            #[trigger] adds_have(checkpoint, "partitionValues_parsed"@, p),
{
    if checkpoint_read::partition_values_usable(checkpoint, needed) {
        lemma_adds_have(checkpoint, "partitionValues_parsed"@);
    }
}

/// Whether the names of fields differ in more than case.
pub open spec fn names_differ(s: Seq<FieldView>) -> bool {
    forall|i: int, j: int|
        0 <= i < j < s.len() ==> bindings::lowercased((#[trigger] s[i]).name)
            != bindings::lowercased((#[trigger] s[j]).name)
}

/// Whether a field is read as one of the same name: with nulls allowed where it may hold them, and as a
/// type that it can be read as.
pub open spec fn is_read_among(f: FieldView, read: Seq<FieldView>) -> bool {
    exists|j: int|
        0 <= j < read.len() && (#[trigger] read[j]).name == f.name && (f.nullable ==> read[j].nullable)
            && schema_compare::readable_as(f.data_type, read[j].data_type)
}

/// Whether there is a field of a name.
pub open spec fn is_named_among(name: Seq<char>, s: Seq<FieldView>) -> bool {
    exists|i: int| 0 <= i < s.len() && (#[trigger] s[i]).name == name
}

/// Where names that differ differ in more than case, a struct can be read as another exactly where each
/// of its fields is read as one of the same name, and what is read but not there may be null.
pub proof fn structs_can_be_read_exactly_if(have: Seq<FieldView>, read: Seq<FieldView>)
    requires
        names_differ(have),
        names_differ(read),
        forall|i: int, j: int|
            0 <= i < have.len() && 0 <= j < read.len() && bindings::lowercased(
                (#[trigger] have[i]).name,
            ) == bindings::lowercased((#[trigger] read[j]).name) ==> have[i].name == read[j].name,
    ensures
        schema_compare::readable_as(DataTypeView::Struct(have), DataTypeView::Struct(read)) <==> {
            &&& forall|i: int| 0 <= i < have.len() ==> is_read_among(#[trigger] have[i], read)
            &&& forall|j: int|
                0 <= j < read.len() ==> (#[trigger] read[j]).nullable || is_named_among(
                    read[j].name,
                    have,
                )
        },
{
    let lower = schema_compare::all_lower();
    let a = schema_compare::lower_names(lower, have);
    let b = schema_compare::lower_names(lower, read);
    assert(schema_compare::readable_as(DataTypeView::Struct(have), DataTypeView::Struct(read))
        == schema_compare::fields_readable_with(lower, have, read));
    assert forall|i: int| 0 <= i < have.len() implies #[trigger] a[i] == bindings::lowercased(
        have[i].name,
    ) by {}
    assert forall|j: int| 0 <= j < read.len() implies #[trigger] b[j] == bindings::lowercased(
        read[j].name,
    ) by {}
    if schema_compare::fields_readable_with(lower, have, read) {
        readable_fields_are_all_read(have, read);
    } else if (forall|i: int| 0 <= i < have.len() ==> is_read_among(#[trigger] have[i], read)) && (
    forall|j: int|
        0 <= j < read.len() ==> (#[trigger] read[j]).nullable || is_named_among(
            read[j].name,
            have,
        )) {
        assert(a.no_duplicates()) by {
            assert forall|i: int, j: int| 0 <= i < a.len() && 0 <= j < a.len() && i != j implies a[i]
                != a[j] by {
                if i < j {
                    assert(bindings::lowercased(have[i].name) != bindings::lowercased(have[j].name));
                } else {
                    assert(bindings::lowercased(have[j].name) != bindings::lowercased(have[i].name));
                }
            }
        }
        assert(b.no_duplicates()) by {
            assert forall|i: int, j: int| 0 <= i < b.len() && 0 <= j < b.len() && i != j implies b[i]
                != b[j] by {
                if i < j {
                    assert(bindings::lowercased(read[i].name) != bindings::lowercased(read[j].name));
                } else {
                    assert(bindings::lowercased(read[j].name) != bindings::lowercased(read[i].name));
                }
            }
        }
        assert forall|i: int| 0 <= i < have.len() implies b.contains(#[trigger] a[i]) by {
            assert(is_read_among(have[i], read));
            let j = choose|j: int|
                0 <= j < read.len() && (#[trigger] read[j]).name == have[i].name && (
                have[i].nullable ==> read[j].nullable) && schema_compare::readable_as(
                    have[i].data_type,
                    read[j].data_type,
                );
            assert(b[j] == a[i]);
        }
        assert forall|j: int| 0 <= j < read.len() implies (a.contains(b[j]) || (
        #[trigger] read[j]).nullable) by {
            if !read[j].nullable {
                let i = choose|i: int| 0 <= i < have.len() && (#[trigger] have[i]).name == read[j].name;
                assert(a[i] == b[j]);
            }
        }
        assert forall|i: int, j: int|
            0 <= i < have.len() && 0 <= j < read.len() && #[trigger] a[i] == #[trigger] b[j] implies
            schema_compare::nullability_compatible(have[i].nullable, read[j].nullable)
            && have[i].name == read[j].name && schema_compare::readable_with(
            lower,
            have[i].data_type,
            read[j].data_type,
        ) by {
            assert(is_read_among(have[i], read));
            let k = choose|k: int|
                0 <= k < read.len() && (#[trigger] read[k]).name == have[i].name && (
                have[i].nullable ==> read[k].nullable) && schema_compare::readable_as(
                    have[i].data_type,
                    read[k].data_type,
                );
            assert(b[k] == b[j]);
            assert(k == j);
        }
    }
}

/// Whether a search asks for nothing but what is in the checkpoint: its first file, read in the way in
/// which it is written, or the first of its sidecar files.
pub open spec fn asks_for_the_checkpoint(s: SegmentView, state: SearchView) -> bool {
    match state {
        SearchView::NeedFooter { checkpoint } => s.listed.parts.len() > 0 && checkpoint
            == s.listed.parts[0].location,
        SearchView::NeedSidecarRefs { checkpoint, format, .. } => s.listed.parts.len() > 0
            && checkpoint == s.listed.parts[0].location && (format is Json
            <==> s.listed.parts[0].extension == "json"@),
        SearchView::NeedSidecarFooter { first, sidecars } => sidecars.len() > 0 && first
            == sidecars[0],
        SearchView::Found { .. } => true,
    }
}

/// The search for the schema of the file actions reads the first file of the checkpoint and the first
/// sidecar file, and no other.
pub proof fn searches_read_the_first_files(
    s: SegmentView,
    state: SearchView,
    schema: Seq<FieldView>,
    refs: Seq<SidecarView>,
)
    ensures
        asks_for_the_checkpoint(s, checkpoint_read::search_start(s)),
        state == checkpoint_read::search_start(s) && state is NeedFooter ==> asks_for_the_checkpoint(
            s,
            checkpoint_read::search_after_footer(s, state, schema),
        ),
        asks_for_the_checkpoint(s, state) ==> (checkpoint_read::search_after_refs(
            s,
            state,
            refs,
        ) matches Ok(next) ==> asks_for_the_checkpoint(s, next)),
{
    reveal_strlit("json");
    reveal_strlit("parquet");
    assert("json"@.len() != "parquet"@.len());
}

/// Whether a log file can be published below a directory: its name there is a URL.
pub open spec fn has_place(root: Seq<char>, p: LogPathView) -> bool {
    bindings::joined_url(root, commit_cover::commit_file_name(p.version)) is Ok
}

/// Staged commits are published exactly where each of them has a place.
pub proof fn commits_are_published_exactly_if_placed(root: Seq<char>, s: Seq<LogPathView>)
    ensures
        commit_cover::catalog_commits_of(root, s) is Ok <==> forall|i: int|
            0 <= i < s.len() ==> has_place(root, #[trigger] s[i]),
    decreases s.len(),
{
    if s.len() > 0 {
        let front = s.drop_last();
        commits_are_published_exactly_if_placed(root, front);
        assert(s[s.len() - 1] == s.last());
        if commit_cover::catalog_commits_of(root, s) is Ok {
            assert forall|i: int| 0 <= i < s.len() implies has_place(root, #[trigger] s[i]) by {
                if i < front.len() {
                    assert(front[i] == s[i]);
                }
            }
        }
        if forall|i: int| 0 <= i < s.len() ==> has_place(root, #[trigger] s[i]) {
            assert forall|i: int| 0 <= i < front.len() implies has_place(root, #[trigger] front[i]) by {
                assert(front[i] == s[i]);
            }
            assert(has_place(root, s[s.len() - 1]));
        }
    }
}

/// Whether a sidecar action names a file: its size is not negative, and its path below the directory
/// for sidecars is a URL.
pub open spec fn names_file(log_root: Seq<char>, s: SidecarView) -> bool {
    s.size_in_bytes >= 0 && (bindings::joined_url(log_root, "_sidecars/"@) matches Ok(dir)
        && bindings::joined_url(dir, s.path) is Ok)
}

/// Sidecar actions give files exactly where each of them names one.
pub proof fn sidecars_are_found_exactly_if_named(s: Seq<SidecarView>, log_root: Seq<char>)
    ensures
        actions::sidecar_files(s, log_root) is Ok <==> forall|i: int|
            0 <= i < s.len() ==> names_file(log_root, #[trigger] s[i]),
    decreases s.len(),
{
    if s.len() > 0 {
        let front = s.drop_last();
        sidecars_are_found_exactly_if_named(front, log_root);
        assert(s[s.len() - 1] == s.last());
        if actions::sidecar_files(s, log_root) is Ok {
            assert forall|i: int| 0 <= i < s.len() implies names_file(log_root, #[trigger] s[i]) by {
                if i < front.len() {
                    assert(front[i] == s[i]);
                }
            }
        }
        if forall|i: int| 0 <= i < s.len() ==> names_file(log_root, #[trigger] s[i]) {
            assert forall|i: int| 0 <= i < front.len() implies names_file(
                log_root,
                #[trigger] front[i],
            ) by {
                assert(front[i] == s[i]);
            }
            assert(names_file(log_root, s[s.len() - 1]));
        }
    }
}

/// A checkpoint can be read with what is asked for unless add actions are to get parsed columns and are
/// no struct. Its files can be read where the first is Parquet or JSON by its extension, or there is
/// none.
pub proof fn checkpoints_can_be_read_exactly_if(
    actions: Seq<FieldView>,
    has_sidecars: bool,
    stats: Option<Seq<FieldView>>,
    partition: Option<Seq<FieldView>>,
    parts: Seq<LogPathView>,
)
    ensures
        checkpoint_read::checkpoint_schema_of(actions, has_sidecars, stats, partition) is Ok <==> (
        (stats is Some || partition is Some) && schema::find_field(actions, "add"@) is Some
            ==> schema::find_field(actions, "add"@)->0.data_type is Struct),
        checkpoint_read::format_fault(parts) is None <==> (parts.len() > 0 ==> parts[0].extension
            == "json"@ || parts[0].extension == "parquet"@),
{
}

} // verus!
