//! What a section of the log holds, and what changes of it leave alone.
use vstd::prelude::*;

use crate::log_segment::{self, HintView, ListedView, SegmentView};
use crate::log_validation;
use crate::path::{LogPathFileType, LogPathView};
use crate::text;
use crate::Version;

verus! {

/// The files above a version are those of higher versions, all of them and no others, in order.
pub proof fn files_above_are_the_later_ones(s: Seq<LogPathView>, lo: Option<Version>)
    ensures
        ({
            let t = log_segment::above(s, lo);
            &&& forall|p: LogPathView| #[trigger]
                t.contains(p) <==> s.contains(p) && (lo matches Some(v) ==> v < p.version)
            &&& lo is None ==> t == s
            &&& t.len() <= s.len()
        }),
    decreases s.len(),
{
    let t = log_segment::above(s, lo);
    let keep = |p: LogPathView| lo matches Some(lo) ==> lo < p.version;
    if s.len() > 0 {
        let front = s.drop_last();
        files_above_are_the_later_ones(front, lo);
        let before = log_segment::above(front, lo);
        assert(t == (if keep(s.last()) {
            before.push(s.last())
        } else {
            before
        }));
        assert forall|p: LogPathView| #[trigger] t.contains(p) <==> s.contains(p) && (
        lo matches Some(v) ==> v < p.version) by {
            if t.contains(p) {
                let i = choose|i: int| 0 <= i < t.len() && t[i] == p;
                if i < before.len() {
                    assert(before[i] == p);
                    assert(before.contains(p));
                    let k = choose|k: int| 0 <= k < front.len() && front[k] == p;
                    assert(s[k] == p);
                } else {
                    assert(s[s.len() - 1] == p);
                }
            }
            if s.contains(p) && (lo matches Some(v) ==> v < p.version) {
                let k = choose|k: int| 0 <= k < s.len() && s[k] == p;
                if k < front.len() {
                    assert(front[k] == p);
                    assert(before.contains(p));
                    let i = choose|i: int| 0 <= i < before.len() && before[i] == p;
                    assert(t[i] == p);
                } else {
                    assert(t[t.len() - 1] == p);
                }
            }
        }
        if lo is None {
            assert(s =~= front.push(s.last()));
        }
    }
}

/// A listing makes a segment of its files: the commits above the checkpoint, and everything else as
/// it was listed, with the log and the hint that were given. The segment ends at its last commit, or
/// at its checkpoint where no commit comes after that, and at the version that was asked for.
pub proof fn segments_hold_what_was_listed(
    listed: ListedView,
    log_root: Seq<char>,
    end_version: Option<Version>,
    hint: Option<HintView>,
)
    ensures
        log_segment::segment_of(listed, log_root, end_version, hint) matches Ok(s) ==> {
            &&& forall|p: LogPathView| #[trigger]
                s.listed.commits.contains(p) <==> listed.commits.contains(p) && (listed.parts.len()
                    > 0 ==> listed.parts[0].version < p.version)
            &&& listed.parts.len() == 0 ==> s.listed.commits == listed.commits
                && s.checkpoint_version is None
            &&& listed.parts.len() > 0 ==> s.checkpoint_version == Some(listed.parts[0].version)
            &&& s.listed.compactions == listed.compactions
            &&& s.listed.parts == listed.parts
            &&& s.listed.crc == listed.crc
            &&& s.listed.latest_commit == listed.latest_commit
            &&& s.listed.max_published == listed.max_published
            &&& s.log_root == log_root
            &&& s.last_checkpoint == hint
            &&& s.listed.commits.len() > 0 ==> s.end_version == s.listed.commits.last().version
            &&& s.listed.commits.len() == 0 ==> listed.parts.len() > 0 && s.end_version
                == listed.parts[0].version
            &&& end_version matches Some(v) ==> s.end_version == v
        },
{
    files_above_are_the_later_ones(listed.commits, log_segment::parts_version(listed.parts));
}

/// Whether compaction files can be used: each of them is one and covers at least one version, and they
/// come in order of their first versions, and of their last ones among those that begin alike.
pub open spec fn compactions_are_usable(s: Seq<LogPathView>) -> bool {
    &&& forall|i: int|
        0 <= i < s.len() ==> ((#[trigger] s[i]).file_type matches LogPathFileType::CompactedCommit {
            hi,
        } && s[i].version <= hi)
    &&& forall|i: int, j: int|
        0 <= i < j < s.len() ==> (#[trigger] s[i]).version < (#[trigger] s[j]).version || (
        s[i].version == s[j].version && s[i].file_type->hi <= s[j].file_type->hi)
}

/// Whether the files of a checkpoint can be used: they are checkpoint files of one version; there is at
/// most one, or all parts of it, as many as each part says, with the numbers from one on.
pub open spec fn checkpoint_is_usable(s: Seq<LogPathView>) -> bool {
    &&& forall|i: int|
        0 <= i < s.len() ==> {
            let t = (#[trigger] s[i]).file_type;
            &&& t is SinglePartCheckpoint || t is UuidCheckpoint || t is MultiPartCheckpoint
            &&& s[i].version == s[0].version
            &&& s.len() > 1 ==> t is MultiPartCheckpoint
            &&& t matches LogPathFileType::MultiPartCheckpoint { part_num, num_parts } ==> num_parts
                == s.len() && 1 <= part_num <= num_parts
        }
    &&& forall|i: int, j: int|
        0 <= i < j < s.len() && (#[trigger] s[i]).file_type is MultiPartCheckpoint && (
        #[trigger] s[j]).file_type is MultiPartCheckpoint ==> s[i].file_type->part_num
            != s[j].file_type->part_num
}

/// A listing makes a segment exactly where its compaction files, its checkpoint and its commits are
/// usable, no version is missing between the checkpoint and the commits after it, there is a file at
/// all, and the last version is the one that was asked for.
pub proof fn listings_make_segments_exactly_if_usable(
    listed: ListedView,
    log_root: Seq<char>,
    end_version: Option<Version>,
    hint: Option<HintView>,
)
    ensures
        log_segment::segment_of(listed, log_root, end_version, hint) is Ok <==> {
            let commits = log_segment::above(
                listed.commits,
                log_segment::parts_version(listed.parts),
            );
            &&& compactions_are_usable(listed.compactions)
            &&& checkpoint_is_usable(listed.parts)
            &&& forall|i: int|
                0 <= i < listed.commits.len() ==> (#[trigger] listed.commits[i]).file_type is Commit
                    || listed.commits[i].file_type is StagedCommit
            &&& forall|i: int|
                0 <= i < listed.commits.len() ==> (#[trigger] listed.commits[i]).version
                    == listed.commits[0].version + i
            &&& listed.parts.len() > 0 && commits.len() > 0 ==> commits[0].version
                == listed.parts[0].version + 1
            &&& listed.parts.len() > 0 || commits.len() > 0
            &&& end_version matches Some(v) ==> v == (if commits.len() > 0 {
                commits.last().version
            } else {
                listed.parts[0].version
            })
        },
{
    log_validation::lemma_compaction_check(listed.compactions);
    log_validation::lemma_checkpoint_check(listed.parts);
    log_validation::lemma_contiguity_check(listed.commits);
    lemma_compactions_are_usable(listed.compactions);
    lemma_checkpoint_is_usable(listed.parts);
}

proof fn lemma_compactions_are_usable(s: Seq<LogPathView>)
    ensures
        log_validation::compactions_valid(s) <==> compactions_are_usable(s),
{
    if log_validation::compactions_valid(s) {
        assert forall|i: int, j: int| 0 <= i < j < s.len() implies (#[trigger] s[i]).version < (
        #[trigger] s[j]).version || (s[i].version == s[j].version && s[i].file_type->hi
            <= s[j].file_type->hi) by {
            assert(log_validation::compaction_order(s[i], s[j]));
        }
    }
}

proof fn lemma_checkpoint_is_usable(s: Seq<LogPathView>)
    ensures
        log_validation::checkpoint_valid(s) <==> checkpoint_is_usable(s),
{
    if checkpoint_is_usable(s) {
        assert forall|i: int, j: int| 0 <= i < j < s.len() implies (log_validation::part_number(
            (#[trigger] s[i]).file_type,
        ) matches Some(k) ==> log_validation::part_number((#[trigger] s[j]).file_type) != Some(k)) by {
            assert(s[i].file_type is MultiPartCheckpoint && s[j].file_type is MultiPartCheckpoint);
            assert(s[i].file_type->part_num != s[j].file_type->part_num);
        }
    }
    if log_validation::checkpoint_valid(s) {
        assert forall|i: int, j: int|
            0 <= i < j < s.len() && (#[trigger] s[i]).file_type is MultiPartCheckpoint && (
            #[trigger] s[j]).file_type is MultiPartCheckpoint implies s[i].file_type->part_num
            != s[j].file_type->part_num by {
            assert(log_validation::part_number(s[i].file_type) != log_validation::part_number(
                s[j].file_type,
            ));
        }
    }
}

/// Appending a commit puts it last and makes it the latest; the segment ends at its version, and it is
/// published exactly where it is a published commit. Everything else stays. Only a commit of the
/// version after the last can be appended.
pub proof fn appended_commits_come_last(s: SegmentView, tail: LogPathView)
    requires
        s.end_version < u64::MAX,
    ensures
        log_segment::append_fault(s, tail) is None <==> (tail.file_type is Commit
            || tail.file_type is StagedCommit) && tail.version == s.end_version + 1,
        ({
            let t = log_segment::appended_segment(s, tail);
            &&& t.end_version == tail.version
            &&& t.listed.commits.len() == s.listed.commits.len() + 1
            &&& t.listed.commits.last() == tail
            &&& forall|i: int|
                0 <= i < s.listed.commits.len() ==> #[trigger] t.listed.commits[i]
                    == s.listed.commits[i]
            &&& t.listed.latest_commit == Some(tail)
            &&& tail.file_type is Commit ==> t.listed.max_published == Some(tail.version)
            &&& !(tail.file_type is Commit) ==> t.listed.max_published == s.listed.max_published
            &&& t.listed.compactions == s.listed.compactions
            &&& t.listed.parts == s.listed.parts
            &&& t.listed.crc == s.listed.crc
            &&& t.checkpoint_version == s.checkpoint_version
            &&& t.log_root == s.log_root
            &&& t.last_checkpoint == s.last_checkpoint
        }),
{
}

/// A checkpoint at the end of a segment makes commits and compactions superfluous and the hint stale;
/// everything else stays. It must be one file of the last version.
pub proof fn checkpoints_replace_commits(s: SegmentView, cp: LogPathView)
    ensures
        log_segment::checkpoint_record_fault(s, cp) is None <==> (
        cp.file_type is SinglePartCheckpoint || cp.file_type is UuidCheckpoint) && cp.version
            == s.end_version,
        ({
            let t = log_segment::checkpointed_segment(s, cp);
            &&& t.checkpoint_version == Some(cp.version)
            &&& t.listed.parts.len() == 1 && t.listed.parts[0] == cp
            &&& t.listed.commits.len() == 0 && t.listed.compactions.len() == 0
            &&& t.last_checkpoint is None
            &&& t.end_version == s.end_version
            &&& t.log_root == s.log_root
            &&& t.listed.crc == s.listed.crc
            &&& t.listed.latest_commit == s.listed.latest_commit
            &&& t.listed.max_published == s.listed.max_published
        }),
{
}

/// Recording a checksum file changes which checksum is known, and nothing else. It must be a checksum
/// of the last version.
pub proof fn recorded_checksums_change_nothing_else(s: SegmentView, crc: LogPathView)
    ensures
        log_segment::crc_record_fault(s, crc) is None <==> crc.file_type is Crc && crc.version
            == s.end_version,
        ({
            let t = log_segment::crc_segment(s, crc);
            &&& t.listed.crc matches Some(c) && c.version == crc.version && c.location.location
                == crc.location.location && c.file_type == crc.file_type && c.filename
                == crc.filename
            &&& t.listed.commits == s.listed.commits
            &&& t.listed.compactions == s.listed.compactions
            &&& t.listed.parts == s.listed.parts
            &&& t.listed.latest_commit == s.listed.latest_commit
            &&& t.listed.max_published == s.listed.max_published
            &&& t.end_version == s.end_version && t.checkpoint_version == s.checkpoint_version
            &&& t.log_root == s.log_root && t.last_checkpoint == s.last_checkpoint
        }),
{
}

/// The segment of a table that was just created holds its first commit and nothing else, and is
/// published. That commit must be of version zero.
pub proof fn first_segments_hold_one_commit(log_root: Seq<char>, commit: LogPathView)
    ensures
        log_segment::version_zero_fault(commit) is None <==> commit.version == 0 && (
        commit.file_type is Commit || commit.file_type is StagedCommit),
        ({
            let s = log_segment::version_zero_segment(log_root, commit);
            &&& s.log_root == log_root && s.end_version == commit.version
            &&& s.checkpoint_version is None && s.last_checkpoint is None
            &&& s.listed.commits.len() == 1 && s.listed.commits[0] == commit
            &&& s.listed.compactions.len() == 0 && s.listed.parts.len() == 0 && s.listed.crc is None
            &&& s.listed.latest_commit == Some(commit)
            &&& s.listed.max_published == Some(commit.version)
        }),
{
}

/// How far the log is compacted: no compaction file and no checkpoint of the segment reaches further,
/// and one of them reaches as far, unless there is none.
pub proof fn compacted_through_is_the_furthest(s: SegmentView)
    ensures
        ({
            let v = log_segment::compacted_through(s);
            &&& s.checkpoint_version matches Some(cp) ==> cp <= v
            &&& forall|i: int|
                0 <= i < s.listed.compactions.len() ==> ((
                #[trigger] s.listed.compactions[i]).file_type matches LogPathFileType::CompactedCommit {
                    hi,
                } ==> hi <= v)
            &&& v == 0 || s.checkpoint_version == Some(v) || exists|i: int|
                0 <= i < s.listed.compactions.len() && (
                #[trigger] s.listed.compactions[i]).file_type == (LogPathFileType::CompactedCommit {
                    hi: v,
                })
        }),
        s.checkpoint_version matches Some(cp) ==> log_segment::checkpointed_through(s) == cp,
        s.checkpoint_version is None ==> log_segment::checkpointed_through(s) == 0,
{
    lemma_last_compacted(s.listed.compactions);
}

/// The last version that compaction files cover.
proof fn lemma_last_compacted(s: Seq<LogPathView>)
    ensures
        ({
            let v = log_segment::last_compacted(s);
            &&& forall|i: int|
                0 <= i < s.len() ==> ((#[trigger] s[i]).file_type matches LogPathFileType::CompactedCommit {
                    hi,
                } ==> hi <= v)
            &&& v == 0 || exists|i: int|
                0 <= i < s.len() && (#[trigger] s[i]).file_type == (LogPathFileType::CompactedCommit {
                    hi: v,
                })
        }),
    decreases s.len(),
{
    if s.len() > 0 {
        let front = s.drop_last();
        lemma_last_compacted(front);
        let v = log_segment::last_compacted(s);
        let w = log_segment::last_compacted(front);
        assert forall|i: int| 0 <= i < s.len() implies ((#[trigger] s[i]).file_type matches LogPathFileType::CompactedCommit {
            hi,
        } ==> hi <= v) by {
            if i < front.len() {
                assert(front[i] == s[i]);
            }
        }
        if v != 0 {
            if v == w {
                let i = choose|i: int|
                    0 <= i < front.len() && (#[trigger] front[i]).file_type == (
                    LogPathFileType::CompactedCommit { hi: w });
                assert(s[i] == front[i]);
            } else {
                assert(s[s.len() - 1].file_type == (LogPathFileType::CompactedCommit { hi: v }));
            }
        }
    }
}

/// A value with its name.
pub open spec fn labelled(name: Seq<char>, value: Seq<char>) -> Seq<char> {
    name + "="@ + value
}

/// A version, or that there is none.
pub open spec fn shown(v: Option<Version>) -> Seq<char> {
    if v is Some {
        text::decimal(v->0 as nat)
    } else {
        "none"@
    }
}

/// Texts with commas between them.
pub open spec fn listed_texts(s: Seq<Seq<char>>) -> Seq<char>
    decreases s.len(),
{
    if s.len() == 0 {
        Seq::empty()
    } else if s.len() == 1 {
        s[0]
    } else {
        listed_texts(s.drop_last()) + ", "@ + s.last()
    }
}

/// A value with its name goes on with a text.
proof fn lemma_labelled(x: Seq<char>, name: Seq<char>, value: Seq<char>, label: Seq<char>)
    requires
        label == ", "@ + name + "="@,
    ensures
        x + ", "@ + labelled(name, value) == x + label + value,
{
    assert(x + ", "@ + labelled(name, value) =~= x + label + value);
}

/// It does not matter which of two texts a third is put before first.
proof fn lemma_follows(brace: Seq<char>, t: Seq<char>, label: Seq<char>, value: Seq<char>)
    ensures
        brace + (t + label + value) == brace + t + label + value,
{
    assert(brace + (t + label + value) =~= brace + t + label + value);
}

/// The summary of a segment lists, in braces and by name: its last version, how many commits it has,
/// the version and the number of parts of its checkpoint, how many compactions it has, the version of
/// its checksum, and up to which version commits are published.
pub proof fn summaries_list_what_segments_hold(s: SegmentView)
    ensures
        log_segment::summary_of(s) == "{"@ + listed_texts(
            seq![
                labelled("v"@, text::decimal(s.end_version as nat)),
                labelled("commits"@, text::decimal(s.listed.commits.len())),
                labelled("checkpoint_v"@, shown(s.checkpoint_version)),
                labelled("checkpoint_parts"@, text::decimal(s.listed.parts.len())),
                labelled("compactions"@, text::decimal(s.listed.compactions.len())),
                labelled(
                    "crc_v"@,
                    if s.listed.crc is Some {
                        text::decimal(s.listed.crc->0.version as nat)
                    } else {
                        "none"@
                    },
                ),
                labelled("max_pub_v"@, shown(s.listed.max_published)),
            ],
        ) + "}"@,
{
    reveal_strlit("{");
    reveal_strlit("{v=");
    reveal_strlit("v");
    reveal_strlit("=");
    reveal_strlit(", ");
    reveal_strlit("commits");
    reveal_strlit(", commits=");
    reveal_strlit("checkpoint_v");
    reveal_strlit(", checkpoint_v=");
    reveal_strlit("checkpoint_parts");
    reveal_strlit(", checkpoint_parts=");
    reveal_strlit("compactions");
    reveal_strlit(", compactions=");
    reveal_strlit("crc_v");
    reveal_strlit(", crc_v=");
    reveal_strlit("max_pub_v");
    reveal_strlit(", max_pub_v=");
    let parts = seq![
        labelled("v"@, text::decimal(s.end_version as nat)),
        labelled("commits"@, text::decimal(s.listed.commits.len())),
        labelled("checkpoint_v"@, shown(s.checkpoint_version)),
        labelled("checkpoint_parts"@, text::decimal(s.listed.parts.len())),
        labelled("compactions"@, text::decimal(s.listed.compactions.len())),
        labelled(
            "crc_v"@,
            if s.listed.crc is Some {
                text::decimal(s.listed.crc->0.version as nat)
            } else {
                "none"@
            },
        ),
        labelled("max_pub_v"@, shown(s.listed.max_published)),
    ];
    let p6 = parts.drop_last();
    let p5 = p6.drop_last();
    let p4 = p5.drop_last();
    let p3 = p4.drop_last();
    let p2 = p3.drop_last();
    let p1 = p2.drop_last();
    assert(", commits="@ =~= ", "@ + "commits"@ + "="@);
    assert(", checkpoint_v="@ =~= ", "@ + "checkpoint_v"@ + "="@);
    assert(", checkpoint_parts="@ =~= ", "@ + "checkpoint_parts"@ + "="@);
    assert(", compactions="@ =~= ", "@ + "compactions"@ + "="@);
    assert(", crc_v="@ =~= ", "@ + "crc_v"@ + "="@);
    assert(", max_pub_v="@ =~= ", "@ + "max_pub_v"@ + "="@);
    let crc = if s.listed.crc is Some {
        text::decimal(s.listed.crc->0.version as nat)
    } else {
        "none"@
    };
    let t1 = listed_texts(p1);
    let t2 = listed_texts(p2);
    let t3 = listed_texts(p3);
    let t4 = listed_texts(p4);
    let t5 = listed_texts(p5);
    let t6 = listed_texts(p6);
    lemma_labelled(t1, "commits"@, text::decimal(s.listed.commits.len()), ", commits="@);
    lemma_labelled(t2, "checkpoint_v"@, shown(s.checkpoint_version), ", checkpoint_v="@);
    lemma_labelled(
        t3,
        "checkpoint_parts"@,
        text::decimal(s.listed.parts.len()),
        ", checkpoint_parts="@,
    );
    lemma_labelled(t4, "compactions"@, text::decimal(s.listed.compactions.len()), ", compactions="@);
    lemma_labelled(t5, "crc_v"@, crc, ", crc_v="@);
    lemma_labelled(t6, "max_pub_v"@, shown(s.listed.max_published), ", max_pub_v="@);
    assert(t1 == parts[0]);
    let brace = "{"@;
    assert("{v="@ + text::decimal(s.end_version as nat) =~= brace + t1);
    lemma_follows(brace, t1, ", commits="@, text::decimal(s.listed.commits.len()));
    lemma_follows(brace, t2, ", checkpoint_v="@, shown(s.checkpoint_version));
    lemma_follows(brace, t3, ", checkpoint_parts="@, text::decimal(s.listed.parts.len()));
    lemma_follows(brace, t4, ", compactions="@, text::decimal(s.listed.compactions.len()));
    lemma_follows(brace, t5, ", crc_v="@, crc);
    lemma_follows(brace, t6, ", max_pub_v="@, shown(s.listed.max_published));
}

} // verus!
