//! Which log files to read: covering commits by compactions, and pruning a segment at a checksum.
use vstd::prelude::*;

use crate::bindings::{self, join_url};
use crate::error::{self, DeltaResult, Error, ErrorView};
use crate::log_segment::{self, ListedView, LogSegment, LogSegmentFiles, SegmentView};
use crate::log_validation;
use crate::path::{
    self, clone_paths, FileMeta, FileMetaView, LogPathFileType, LogPathView, ParsedLogPath,
};
use crate::text::{self, text2, unsigned_text};
use crate::Version;

verus! {

/// Two lists merged by version: at each step the first file of the first list comes, if its
/// version is not above that of the first file of the second.
pub open spec fn merged(a: Seq<LogPathView>, b: Seq<LogPathView>) -> Seq<LogPathView>
    decreases a.len() + b.len(),
{
    if a.len() == 0 {
        b
    } else if b.len() == 0 {
        a
    } else if a[0].version <= b[0].version {
        seq![a[0]] + merged(a.skip(1), b)
    } else {
        seq![b[0]] + merged(a, b.skip(1))
    }
}

/// The chosen files after one more file has been looked at. It takes the place of the last one if
/// both start at the same version; it is passed over if a chosen compaction covers its start.
pub open spec fn cover_step(chosen: Seq<LogPathView>, next: LogPathView) -> Seq<LogPathView> {
    if chosen.len() == 0 {
        seq![next]
    } else if chosen.last().version == next.version {
        chosen.drop_last().push(next)
    } else if chosen.last().file_type is CompactedCommit && next.version <= log_validation::compaction_hi(
        chosen.last(),
    ) {
        chosen
    } else {
        chosen.push(next)
    }
}

/// The chosen files after all the files of a list have been looked at in turn.
pub open spec fn cover_from(chosen: Seq<LogPathView>, rest: Seq<LogPathView>) -> Seq<LogPathView>
    decreases rest.len(),
{
    if rest.len() == 0 {
        chosen
    } else {
        cover_from(cover_step(chosen, rest[0]), rest.skip(1))
    }
}

/// The files that are read for the commits of a segment, in ascending order.
pub open spec fn commit_cover(listed: ListedView) -> Seq<LogPathView> {
    cover_from(Seq::empty(), merged(listed.commits, listed.compactions))
}

/// The locations of a list of log files, last file first.
pub open spec fn locations_descending(s: Seq<LogPathView>) -> Seq<FileMetaView> {
    Seq::new(s.len(), |i: int| s[s.len() - 1 - i].location)
}

/// Whether one of the chosen files covers a version.
pub open spec fn covers(chosen: Seq<LogPathView>, v: Version) -> bool {
    exists|k: int|
        0 <= k < chosen.len() && (#[trigger] chosen[k]).version <= v <= log_validation::compaction_hi(chosen[k])
}

/// Whether a list is sorted by first version, and by last version among those that start alike.
pub open spec fn sorted(s: Seq<LogPathView>) -> bool {
    forall|i: int, j: int|
        0 <= i < j < s.len() ==> #[trigger] log_validation::compaction_order(#[trigger] s[i], #[trigger] s[j])
}

/// Whether no range of a list reaches into a later one.
pub open spec fn disjoint(s: Seq<LogPathView>) -> bool {
    forall|i: int, j: int|
        0 <= i < j < s.len() ==> log_validation::compaction_hi(#[trigger] s[i]) < (#[trigger] s[j]).version
}

/// Whether every file of a list covers at least its own version.
pub open spec fn ranged(s: Seq<LogPathView>) -> bool {
    forall|i: int| 0 <= i < s.len() ==> (#[trigger] s[i]).version <= log_validation::compaction_hi(s[i])
}

/// Every file of a merged list comes from one of the two, and none is lost.
proof fn lemma_merged_elements(a: Seq<LogPathView>, b: Seq<LogPathView>)
    ensures
        merged(a, b).len() == a.len() + b.len(),
        forall|p: LogPathView| #[trigger]
            merged(a, b).contains(p) <==> a.contains(p) || b.contains(p),
    decreases a.len() + b.len(),
{
    if a.len() > 0 && b.len() > 0 {
        let first_a = a[0].version <= b[0].version;
        let (x, y) = if first_a {
            (a.skip(1), b)
        } else {
            (a, b.skip(1))
        };
        lemma_merged_elements(x, y);
        let head = if first_a {
            a[0]
        } else {
            b[0]
        };
        let m = merged(x, y);
        let all = merged(a, b);
        assert(all =~= seq![head] + m);
        assert forall|p: LogPathView| #[trigger] all.contains(p) <==> a.contains(p) || b.contains(
            p,
        ) by {
            if all.contains(p) {
                let i = choose|i: int| 0 <= i < all.len() && all[i] == p;
                if i > 0 {
                    assert(m[i - 1] == p);
                    assert(m.contains(p));
                    if x.contains(p) {
                        let k = choose|k: int| 0 <= k < x.len() && x[k] == p;
                        assert(a.contains(p)) by {
                            if first_a {
                                assert(a[k + 1] == p);
                            } else {
                                assert(a[k] == p);
                            }
                        }
                    } else {
                        let k = choose|k: int| 0 <= k < y.len() && y[k] == p;
                        assert(b.contains(p)) by {
                            if first_a {
                                assert(b[k] == p);
                            } else {
                                assert(b[k + 1] == p);
                            }
                        }
                    }
                }
            }
            if a.contains(p) {
                let k = choose|k: int| 0 <= k < a.len() && a[k] == p;
                if first_a {
                    if k == 0 {
                        assert(all[0] == p);
                    } else {
                        assert(x[k - 1] == p);
                        assert(m.contains(p));
                        let i = choose|i: int| 0 <= i < m.len() && m[i] == p;
                        assert(all[i + 1] == p);
                    }
                } else {
                    assert(x[k] == p);
                    assert(m.contains(p));
                    let i = choose|i: int| 0 <= i < m.len() && m[i] == p;
                    assert(all[i + 1] == p);
                }
            }
            if b.contains(p) {
                let k = choose|k: int| 0 <= k < b.len() && b[k] == p;
                if !first_a {
                    if k == 0 {
                        assert(all[0] == p);
                    } else {
                        assert(y[k - 1] == p);
                        assert(m.contains(p));
                        let i = choose|i: int| 0 <= i < m.len() && m[i] == p;
                        assert(all[i + 1] == p);
                    }
                } else {
                    assert(y[k] == p);
                    assert(m.contains(p));
                    let i = choose|i: int| 0 <= i < m.len() && m[i] == p;
                    assert(all[i + 1] == p);
                }
            }
        }
    }
}

/// Merging commits and compactions that are both in order gives a list in order.
proof fn lemma_merged_sorted(a: Seq<LogPathView>, b: Seq<LogPathView>)
    requires
        sorted(a),
        sorted(b),
        ranged(b),
        forall|i: int| 0 <= i < a.len() ==> log_validation::compaction_hi(#[trigger] a[i]) == a[i].version,
        forall|i: int, j: int|
            0 <= i < j < a.len() ==> (#[trigger] a[i]).version < (#[trigger] a[j]).version,
    ensures
        sorted(merged(a, b)),
    decreases a.len() + b.len(),
{
    if a.len() > 0 && b.len() > 0 {
        let first_a = a[0].version <= b[0].version;
        let (x, y) = if first_a {
            (a.skip(1), b)
        } else {
            (a, b.skip(1))
        };
        let head = if first_a {
            a[0]
        } else {
            b[0]
        };
        assert(sorted(x)) by {
            assert forall|i: int, j: int| 0 <= i < j < x.len() implies #[trigger] log_validation::compaction_order(
                #[trigger] x[i],
                #[trigger] x[j],
            ) by {
                if first_a {
                    assert(log_validation::compaction_order(a[i + 1], a[j + 1]));
                } else {
                    assert(log_validation::compaction_order(a[i], a[j]));
                }
            }
        }
        assert(sorted(y)) by {
            assert forall|i: int, j: int| 0 <= i < j < y.len() implies #[trigger] log_validation::compaction_order(
                #[trigger] y[i],
                #[trigger] y[j],
            ) by {
                if first_a {
                    assert(log_validation::compaction_order(b[i], b[j]));
                } else {
                    assert(log_validation::compaction_order(b[i + 1], b[j + 1]));
                }
            }
        }
        lemma_merged_sorted(x, y);
        lemma_merged_elements(x, y);
        let m = merged(x, y);
        let all = merged(a, b);
        assert(all =~= seq![head] + m);
        assert forall|i: int, j: int| 0 <= i < j < all.len() implies #[trigger] log_validation::compaction_order(
            #[trigger] all[i],
            #[trigger] all[j],
        ) by {
            if i > 0 {
                assert(log_validation::compaction_order(m[i - 1], m[j - 1]));
            } else {
                assert(m.contains(m[j - 1]));
                let p = m[j - 1];
                if x.contains(p) {
                    let k = choose|k: int| 0 <= k < x.len() && x[k] == p;
                    if first_a {
                        assert(log_validation::compaction_order(a[0], a[k + 1]));
                    } else {
                        if k > 0 {
                            assert(a[0].version < a[k].version);
                        }
                    }
                } else {
                    let k = choose|k: int| 0 <= k < y.len() && y[k] == p;
                    if first_a {
                        if k > 0 {
                            assert(log_validation::compaction_order(b[0], b[k]));
                        }
                        assert(b[k].version <= log_validation::compaction_hi(b[k]));
                    } else {
                        assert(log_validation::compaction_order(b[0], b[k + 1]));
                    }
                }
            }
        }
    }
}

/// Whether no file of a list that starts where another file starts reaches further than it.
pub open spec fn reaches_furthest(p: LogPathView, s: Seq<LogPathView>) -> bool {
    forall|i: int|
        0 <= i < s.len() && (#[trigger] s[i]).version == p.version ==> log_validation::compaction_hi(
            s[i],
        ) <= log_validation::compaction_hi(p)
}

/// Looking at the files of an ordered list keeps the chosen ranges apart, chooses only from the
/// list, and leaves no version uncovered that was covered or that a file of the list starts at. A
/// chosen file stays unless one that starts at the same version and reaches further comes.
proof fn lemma_cover_from(chosen: Seq<LogPathView>, rest: Seq<LogPathView>)
    requires
        sorted(rest),
        ranged(rest),
        disjoint(chosen),
        ranged(chosen),
        forall|i: int|
            0 <= i < chosen.len() ==> (#[trigger] chosen[i]).file_type is CompactedCommit
                || log_validation::compaction_hi(chosen[i]) == chosen[i].version,
        forall|i: int|
            0 <= i < rest.len() ==> (#[trigger] rest[i]).file_type is CompactedCommit
                || log_validation::compaction_hi(rest[i]) == rest[i].version,
        chosen.len() > 0 ==> forall|i: int|
            0 <= i < rest.len() ==> log_validation::compaction_order(chosen.last(), #[trigger] rest[i]),
    ensures
        disjoint(cover_from(chosen, rest)),
        ranged(cover_from(chosen, rest)),
        forall|p: LogPathView| #[trigger]
            cover_from(chosen, rest).contains(p) ==> chosen.contains(p) || rest.contains(p),
        forall|v: Version| #[trigger]
            covers(chosen, v) ==> covers(cover_from(chosen, rest), v),
        forall|i: int|
            0 <= i < rest.len() ==> covers(
                cover_from(chosen, rest),
                (#[trigger] rest[i]).version,
            ),
        forall|p: LogPathView| #[trigger]
            cover_from(chosen, rest).contains(p) ==> reaches_furthest(p, chosen)
                && reaches_furthest(p, rest),
        forall|i: int|
            0 <= i < chosen.len() && (rest.len() > 0 ==> (#[trigger] chosen[i]).version < rest[0].version)
                ==> cover_from(chosen, rest).contains(chosen[i]),
    decreases rest.len(),
{
    if rest.len() > 0 {
        let next = rest[0];
        let after = cover_step(chosen, next);
        let tail = rest.skip(1);
        assert(sorted(tail)) by {
            assert forall|i: int, j: int|
                0 <= i < j < tail.len() implies #[trigger] log_validation::compaction_order(
                #[trigger] tail[i],
                #[trigger] tail[j],
            ) by {
                assert(log_validation::compaction_order(rest[i + 1], rest[j + 1]));
            }
        }
        if chosen.len() > 0 {
            assert(log_validation::compaction_order(chosen.last(), next));
        }
        assert(forall|i: int| 0 <= i < tail.len() ==> log_validation::compaction_order(after.last(), #[trigger] tail[i]))
            by {
            assert forall|i: int| 0 <= i < tail.len() implies log_validation::compaction_order(
                after.last(),
                #[trigger] tail[i],
            ) by {
                assert(log_validation::compaction_order(rest[0], rest[i + 1]));
                if chosen.len() > 0 {
                    assert(log_validation::compaction_order(chosen.last(), rest[i + 1]));
                }
            }
        }
        assert(disjoint(after));
        assert(ranged(after));
        assert(covers(after, next.version)) by {
            let k = after.len() - 1;
            assert(after[k].version <= next.version <= log_validation::compaction_hi(after[k]));
        }
        assert forall|v: Version| #[trigger] covers(chosen, v) implies covers(after, v) by {
            let k = choose|k: int|
                0 <= k < chosen.len() && (#[trigger] chosen[k]).version <= v <= log_validation::compaction_hi(
                    chosen[k],
                );
            assert(after[k].version <= v <= log_validation::compaction_hi(after[k]));
        }
        lemma_cover_from(after, tail);
        let all = cover_from(chosen, rest);
        assert forall|p: LogPathView| #[trigger] all.contains(p) implies chosen.contains(p)
            || rest.contains(p) by {
            if after.contains(p) {
                let k = choose|k: int| 0 <= k < after.len() && after[k] == p;
                if k < chosen.len() && chosen[k] == p {
                    assert(chosen.contains(p));
                } else {
                    assert(rest[0] == p);
                }
            } else {
                let k = choose|k: int| 0 <= k < tail.len() && tail[k] == p;
                assert(rest[k + 1] == p);
            }
        }
        assert forall|i: int| 0 <= i < rest.len() implies covers(all, (#[trigger] rest[i]).version) by {
            if i > 0 {
                assert(covers(all, tail[i - 1].version));
            }
        }
        assert forall|i: int| 0 <= i < chosen.len() && (#[trigger] chosen[i]).version < next.version implies all.contains(
            chosen[i],
        ) by {
            assert(after[i] == chosen[i]);
            if tail.len() > 0 {
                assert(log_validation::compaction_order(rest[0], rest[1]));
            }
        }
        assert forall|p: LogPathView| #[trigger] all.contains(p) implies reaches_furthest(p, chosen)
            && reaches_furthest(p, rest) by {
            let last = chosen.len() - 1;
            assert forall|i: int| 0 <= i < chosen.len() && (#[trigger] chosen[i]).version == p.version implies log_validation::compaction_hi(
                chosen[i],
            ) <= log_validation::compaction_hi(p) by {
                if after[i] != chosen[i] {
                    assert(i == last && after[i] == next);
                }
                assert(after[i].version == p.version);
            }
            assert forall|i: int| 0 <= i < rest.len() && (#[trigger] rest[i]).version == p.version implies log_validation::compaction_hi(
                rest[i],
            ) <= log_validation::compaction_hi(p) by {
                if i > 0 {
                    assert(tail[i - 1] == rest[i]);
                } else if after.last() == next {
                    assert(after[after.len() - 1].version == p.version);
                } else {
                    assert(chosen[last].version < next.version <= log_validation::compaction_hi(chosen[last]));
                    assert(all.contains(chosen[last]));
                    let a = choose|a: int| 0 <= a < all.len() && all[a] == chosen[last];
                    let b = choose|b: int| 0 <= b < all.len() && all[b] == p;
                    assert(all[b].version <= log_validation::compaction_hi(all[b]));
                    if a < b {
                        assert(log_validation::compaction_hi(all[a]) < all[b].version);
                    } else if b < a {
                        assert(log_validation::compaction_hi(all[b]) < all[a].version);
                    }
                }
            }
        }
    } else {
        assert forall|p: LogPathView| #[trigger] chosen.contains(p) implies reaches_furthest(p, chosen) by {
            let b = choose|b: int| 0 <= b < chosen.len() && chosen[b] == p;
            assert forall|i: int| 0 <= i < chosen.len() && (#[trigger] chosen[i]).version == p.version implies log_validation::compaction_hi(
                chosen[i],
            ) <= log_validation::compaction_hi(p) by {
                if i < b {
                    assert(log_validation::compaction_hi(chosen[i]) < chosen[b].version);
                } else if b < i {
                    assert(log_validation::compaction_hi(chosen[b]) < chosen[i].version);
                }
            }
        }
    }
}

/// The files that are read for a segment cover every commit of the segment, no two of them cover
/// the same version, they come from the segment, and they are ordered by version. Among the files of
/// the segment that start at the same version, one that reaches furthest is read.
pub proof fn commit_cover_is_complete_and_disjoint(s: SegmentView)
    requires
        log_segment::segment_valid(s),
    ensures
        forall|i: int|
            0 <= i < s.listed.commits.len() ==> covers(
                commit_cover(s.listed),
                (#[trigger] s.listed.commits[i]).version,
            ),
        disjoint(commit_cover(s.listed)),
        ranged(commit_cover(s.listed)),
        forall|p: LogPathView| #[trigger]
            commit_cover(s.listed).contains(p) ==> s.listed.commits.contains(p)
                || s.listed.compactions.contains(p),
        forall|p: LogPathView| #[trigger]
            commit_cover(s.listed).contains(p) ==> reaches_furthest(p, s.listed.commits)
                && reaches_furthest(p, s.listed.compactions),
{
    let a = s.listed.commits;
    let b = s.listed.compactions;
    let m = merged(a, b);
    assert forall|i: int| 0 <= i < a.len() implies log_validation::compaction_hi(#[trigger] a[i]) == a[i].version by {
        assert(path::commit_type(a[i].file_type));
    }
    assert forall|i: int, j: int| 0 <= i < j < a.len() implies (#[trigger] a[i]).version < (
    #[trigger] a[j]).version by {
        assert(a[i].version == a[0].version + i);
        assert(a[j].version == a[0].version + j);
    }
    assert(sorted(a));
    lemma_merged_sorted(a, b);
    lemma_merged_elements(a, b);
    assert forall|i: int| 0 <= i < m.len() implies (#[trigger] m[i]).version <= log_validation::compaction_hi(m[i])
        && (m[i].file_type is CompactedCommit || log_validation::compaction_hi(m[i]) == m[i].version) by {
        assert(m.contains(m[i]));
        if a.contains(m[i]) {
            let k = choose|k: int| 0 <= k < a.len() && a[k] == m[i];
            assert(log_validation::compaction_hi(a[k]) == a[k].version);
        } else {
            let k = choose|k: int| 0 <= k < b.len() && b[k] == m[i];
            assert(b[k].file_type is CompactedCommit);
        }
    }
    lemma_cover_from(Seq::empty(), m);
    assert forall|i: int| 0 <= i < a.len() implies covers(
        commit_cover(s.listed),
        (#[trigger] a[i]).version,
    ) by {
        assert(a.contains(a[i]));
        assert(m.contains(a[i]));
        let k = choose|k: int| 0 <= k < m.len() && m[k] == a[i];
        assert(covers(commit_cover(s.listed), m[k].version));
    }
    assert forall|p: LogPathView| #[trigger] commit_cover(s.listed).contains(p) implies reaches_furthest(
        p,
        a,
    ) && reaches_furthest(p, b) by {
        assert forall|i: int| 0 <= i < a.len() && (#[trigger] a[i]).version == p.version implies log_validation::compaction_hi(
            a[i],
        ) <= log_validation::compaction_hi(p) by {
            assert(m.contains(a[i]));
            let k = choose|k: int| 0 <= k < m.len() && m[k] == a[i];
            assert(m[k].version == p.version);
        }
        assert forall|i: int| 0 <= i < b.len() && (#[trigger] b[i]).version == p.version implies log_validation::compaction_hi(
            b[i],
        ) <= log_validation::compaction_hi(p) by {
            assert(m.contains(b[i]));
            let k = choose|k: int| 0 <= k < m.len() && m[k] == b[i];
            assert(m[k].version == p.version);
        }
    }
}

/// The files behind a list of references.
spec fn refs_view(s: Seq<&ParsedLogPath>) -> Seq<LogPathView> {
    Seq::new(s.len(), |i: int| s[i]@)
}

impl LogSegment {
    /// The files that cover the commits of the segment, latest first: compactions in place of the
    /// commits they cover, and the remaining commits. Among files that start at the same version
    /// the one that covers most is taken; a file that starts inside a taken one is left out.
    pub fn find_commit_cover(&self) -> (r: Vec<FileMeta>)
        ensures
            path::files_view(r@) == locations_descending(commit_cover(self@.listed)),
    {
        let commits = &self.listed.ascending_commit_files;
        let compactions = &self.listed.ascending_compaction_files;
        let ghost a = path::paths_view(commits@);
        let ghost b = path::paths_view(compactions@);
        let mut chosen: Vec<&ParsedLogPath> = Vec::new();
        let mut i: usize = 0;
        let mut j: usize = 0;
        proof {
            assert(a.skip(0) =~= a);
            assert(b.skip(0) =~= b);
            assert(refs_view(chosen@) =~= Seq::<LogPathView>::empty());
        }
        while i < commits.len() || j < compactions.len()
            invariant
                i <= commits@.len(),
                j <= compactions@.len(),
                a == path::paths_view(commits@),
                b == path::paths_view(compactions@),
                self@.listed.commits == a,
                self@.listed.compactions == b,
                commit_cover(self@.listed) == cover_from(
                    refs_view(chosen@),
                    merged(a.skip(i as int), b.skip(j as int)),
                ),
            decreases commits.len() - i + compactions.len() - j,
        {
            let ghost x = a.skip(i as int);
            let ghost y = b.skip(j as int);
            let ghost m = merged(x, y);
            let ghost before = refs_view(chosen@);
            let take_commit: bool = if j >= compactions.len() {
                true
            } else if i >= commits.len() {
                false
            } else {
                commits[i].version <= compactions[j].version
            };
            let next: &ParsedLogPath = if take_commit {
                &commits[i]
            } else {
                &compactions[j]
            };
            proof {
                if take_commit {
                    assert(x[0] == next@);
                    assert(x.skip(1) =~= a.skip(i + 1));
                    assert(m[0] == next@);
                    assert(m.skip(1) =~= merged(x.skip(1), y));
                } else {
                    assert(y[0] == next@);
                    assert(y.skip(1) =~= b.skip(j + 1));
                    assert(m[0] == next@);
                    assert(m.skip(1) =~= merged(x, y.skip(1)));
                }
                if chosen@.len() > 0 {
                    assert(before.last() == chosen@[chosen@.len() - 1]@);
                }
            }
            if take_commit {
                i += 1;
            } else {
                j += 1;
            }
            let n: usize = chosen.len();
            if n == 0 {
                chosen.push(next);
                assert(refs_view(chosen@) =~= seq![next@]);
            } else {
                let last: &ParsedLogPath = chosen[n - 1];
                if last.version == next.version {
                    chosen.pop();
                    chosen.push(next);
                    assert(refs_view(chosen@) =~= before.drop_last().push(next@));
                } else {
                    let covered: bool = match last.file_type {
                        LogPathFileType::CompactedCommit { hi } => next.version <= hi,
                        _ => false,
                    };
                    if !covered {
                        chosen.push(next);
                        assert(refs_view(chosen@) =~= before.push(next@));
                    }
                }
            }
        }
        let ghost cover = refs_view(chosen@);
        assert(a.skip(i as int) =~= Seq::<LogPathView>::empty());
        assert(b.skip(j as int) =~= Seq::<LogPathView>::empty());
        let n: usize = chosen.len();
        let mut files: Vec<FileMeta> = Vec::new();
        let mut k: usize = 0;
        while k < n
            invariant
                k <= n == chosen@.len(),
                cover == refs_view(chosen@),
                files@.len() == k,
                forall|q: int| 0 <= q < k ==> (#[trigger] files@[q])@ == cover[n - 1 - q].location,
            decreases n - k,
        {
            files.push(chosen[n - 1 - k].location.clone());
            k += 1;
        }
        assert(path::files_view(files@) =~= locations_descending(cover));
        files
    }
}

/// The commits of a list in the range that reaches from above one version up to another.
pub open spec fn commits_between(
    s: Seq<LogPathView>,
    lo: Option<Version>,
    hi: Version,
) -> Seq<LogPathView> {
    log_segment::selected(s, |p: LogPathView| (lo matches Some(lo) ==> lo < p.version) && p.version <= hi)
}

/// The compactions of a list that lie wholly in a range.
pub open spec fn compactions_between(
    s: Seq<LogPathView>,
    lo: Option<Version>,
    hi: Version,
) -> Seq<LogPathView> {
    log_segment::selected(
        s,
        |p: LogPathView|
            p.file_type is CompactedCommit && (lo matches Some(lo) ==> lo < p.version)
                && log_validation::compaction_hi(p) <= hi,
    )
}

/// The part of a segment after a checksum: what it covers is dropped.
pub open spec fn after_crc(s: SegmentView, v: Version) -> SegmentView {
    SegmentView {
        end_version: s.end_version,
        checkpoint_version: None,
        log_root: s.log_root,
        last_checkpoint: None,
        listed: ListedView {
            commits: commits_between(s.listed.commits, Some(v), s.end_version),
            compactions: compactions_between(s.listed.compactions, Some(v), s.end_version),
            parts: Seq::empty(),
            crc: None,
            latest_commit: None,
            max_published: None,
        },
    }
}

/// The part of a segment up to a checksum, checkpoint included.
pub open spec fn through_crc(s: SegmentView, v: Version) -> SegmentView {
    SegmentView {
        listed: ListedView {
            commits: commits_between(s.listed.commits, s.checkpoint_version, v),
            compactions: compactions_between(s.listed.compactions, s.checkpoint_version, v),
            parts: s.listed.parts,
            crc: None,
            latest_commit: None,
            max_published: None,
        },
        ..s
    }
}

impl LogSegment {
    /// The commits and compactions of the segment above one version, where it is given, up to and
    /// including another.
    pub fn filtered_commits_and_compactions(
        &self,
        lo_exclusive: Option<Version>,
        hi_inclusive: Version,
    ) -> (r: (Vec<ParsedLogPath>, Vec<ParsedLogPath>))
        ensures
            path::paths_view(r.0@) == commits_between(self@.listed.commits, lo_exclusive, hi_inclusive),
            path::paths_view(r.1@) == compactions_between(
                self@.listed.compactions,
                lo_exclusive,
                hi_inclusive,
            ),
    {
        let files = &self.listed.ascending_commit_files;
        let ghost s = path::paths_view(files@);
        let ghost keep = |p: LogPathView|
            (lo_exclusive matches Some(lo) ==> lo < p.version) && p.version <= hi_inclusive;
        let mut commits: Vec<ParsedLogPath> = Vec::new();
        let mut i: usize = 0;
        assert(path::paths_view(commits@) =~= log_segment::selected(s.take(0), keep));
        while i < files.len()
            invariant
                i <= files@.len(),
                s == path::paths_view(files@),
                keep == (|p: LogPathView|
                    (lo_exclusive matches Some(lo) ==> lo < p.version) && p.version
                        <= hi_inclusive),
                path::paths_view(commits@) == log_segment::selected(s.take(i as int), keep),
            decreases files.len() - i,
        {
            let ghost before = path::paths_view(commits@);
            assert(s.take(i + 1).drop_last() =~= s.take(i as int));
            assert(s.take(i + 1).last() == files@[i as int]@);
            let version: Version = files[i].version;
            if is_above(lo_exclusive, version) && version <= hi_inclusive {
                commits.push(files[i].clone());
                assert(path::paths_view(commits@) =~= before.push(files@[i as int]@));
            }
            i += 1;
        }
        assert(s.take(i as int) =~= s);
        let files = &self.listed.ascending_compaction_files;
        let ghost s = path::paths_view(files@);
        let ghost keep = |p: LogPathView|
            p.file_type is CompactedCommit && (lo_exclusive matches Some(lo) ==> lo < p.version)
                && log_validation::compaction_hi(p) <= hi_inclusive;
        let mut compactions: Vec<ParsedLogPath> = Vec::new();
        let mut i: usize = 0;
        assert(path::paths_view(compactions@) =~= log_segment::selected(s.take(0), keep));
        while i < files.len()
            invariant
                i <= files@.len(),
                s == path::paths_view(files@),
                keep == (|p: LogPathView|
                    p.file_type is CompactedCommit && (lo_exclusive matches Some(lo) ==> lo
                        < p.version) && log_validation::compaction_hi(p) <= hi_inclusive),
                path::paths_view(compactions@) == log_segment::selected(s.take(i as int), keep),
            decreases files.len() - i,
        {
            let ghost before = path::paths_view(compactions@);
            assert(s.take(i + 1).drop_last() =~= s.take(i as int));
            assert(s.take(i + 1).last() == files@[i as int]@);
            if let LogPathFileType::CompactedCommit { hi } = files[i].file_type {
                if is_above(lo_exclusive, files[i].version) && hi <= hi_inclusive {
                    compactions.push(files[i].clone());
                    assert(path::paths_view(compactions@) =~= before.push(files@[i as int]@));
                }
            }
            i += 1;
        }
        assert(s.take(i as int) =~= s);
        (commits, compactions)
    }

    /// The part of the segment after a checksum of the given version. The checksum stands for
    /// everything before it, so checkpoint and hint are dropped.
    pub fn segment_after_crc(&self, start_v_exclusive: Version) -> (r: LogSegment)
        ensures
            r@ == after_crc(self@, start_v_exclusive),
    {
        let (commits, compactions) = self.filtered_commits_and_compactions(
            Some(start_v_exclusive),
            self.end_version,
        );
        let parts: Vec<ParsedLogPath> = Vec::new();
        assert(path::paths_view(parts@) =~= Seq::<LogPathView>::empty());
        LogSegment {
            end_version: self.end_version,
            checkpoint_version: None,
            log_root: self.log_root.clone(),
            last_checkpoint_metadata: None,
            listed: LogSegmentFiles {
                ascending_commit_files: commits,
                ascending_compaction_files: compactions,
                checkpoint_parts: parts,
                latest_crc_file: None,
                latest_commit_file: None,
                max_published_version: None,
            },
        }
    }

    /// The part of the segment up to and including the version of a checksum that could not be
    /// read. Checkpoint and hint are kept.
    pub fn segment_through_crc(&self, end_v_inclusive: Version) -> (r: LogSegment)
        ensures
            r@ == through_crc(self@, end_v_inclusive),
    {
        let (commits, compactions) = self.filtered_commits_and_compactions(
            self.checkpoint_version,
            end_v_inclusive,
        );
        let copy = self.clone();
        LogSegment {
            end_version: copy.end_version,
            checkpoint_version: copy.checkpoint_version,
            log_root: copy.log_root,
            last_checkpoint_metadata: copy.last_checkpoint_metadata,
            listed: LogSegmentFiles {
                ascending_commit_files: commits,
                ascending_compaction_files: compactions,
                checkpoint_parts: clone_paths(&self.listed.checkpoint_parts),
                latest_crc_file: None,
                latest_commit_file: None,
                max_published_version: None,
            },
        }
    }
}

/// Whether a version lies above another, where that is given.
fn is_above(lo: Option<Version>, v: Version) -> (r: bool)
    ensures
        r == (lo matches Some(lo) ==> lo < v),
{
    match lo {
        Some(lo) => lo < v,
        None => true,
    }
}

/// What is kept of a list comes from it and passes the test.
proof fn lemma_selected(s: Seq<LogPathView>, keep: spec_fn(LogPathView) -> bool)
    ensures
        forall|i: int|
            0 <= i < log_segment::selected(s, keep).len() ==> keep(#[trigger] log_segment::selected(s, keep)[i])
                && s.contains(log_segment::selected(s, keep)[i]),
    decreases s.len(),
{
    if s.len() > 0 {
        let front = s.drop_last();
        lemma_selected(front, keep);
        assert forall|i: int| 0 <= i < log_segment::selected(s, keep).len() implies keep(
            #[trigger] log_segment::selected(s, keep)[i],
        ) && s.contains(log_segment::selected(s, keep)[i]) by {
            if i < log_segment::selected(front, keep).len() {
                let p = log_segment::selected(front, keep)[i];
                assert(front.contains(p));
                let k = choose|k: int| 0 <= k < front.len() && front[k] == p;
                assert(s[k] == p);
            } else {
                assert(s[s.len() - 1] == s.last());
            }
        }
    }
}

proof fn lemma_split(s: Seq<LogPathView>, lo: Option<Version>, v: Version, end: Version)
    requires
        log_validation::contiguous(s),
        forall|i: int| 0 <= i < s.len() ==> (#[trigger] s[i]).version <= end,
        lo matches Some(lo) ==> forall|i: int| 0 <= i < s.len() ==> lo < (#[trigger] s[i]).version,
    ensures
        commits_between(s, lo, v) + commits_between(s, Some(v), end) == s,
    decreases s.len(),
{
    let cut: Option<Version> = Some(v);
    let high = |p: LogPathView| (cut matches Some(lo) ==> lo < p.version) && p.version <= end;
    if s.len() > 0 {
        let front = s.drop_last();
        let last = s.last();
        assert(last == s[s.len() - 1]);
        assert forall|i: int| 0 <= i < front.len() implies (#[trigger] front[i]).version
            == front[0].version + i by {
            assert(s[i].version == s[0].version + i);
        }
        lemma_split(front, lo, v, end);
        let a = commits_between(front, lo, v);
        let b = commits_between(front, Some(v), end);
        if last.version <= v {
            lemma_selected(front, high);
            assert(b == log_segment::selected(front, high));
            if b.len() > 0 {
                assert(high(b[0]) && front.contains(b[0]));
                let k = choose|k: int| 0 <= k < front.len() && front[k] == b[0];
                assert(s[k].version == s[0].version + k);
            }
            assert(b =~= Seq::<LogPathView>::empty());
            assert(commits_between(s, lo, v) =~= a.push(last));
            assert(commits_between(s, Some(v), end) =~= b);
            assert(a.push(last) + b =~= (a + b).push(last));
            assert(front.push(last) =~= s);
        } else {
            assert(commits_between(s, lo, v) =~= a);
            assert(commits_between(s, Some(v), end) =~= b.push(last));
            assert(a + b.push(last) =~= (a + b).push(last));
            assert(front.push(last) =~= s);
        }
    } else {
        assert(commits_between(s, lo, v) + commits_between(s, Some(v), end) =~= s);
    }
}

/// Cutting a segment at the version of a checksum puts every commit on exactly one side.
pub proof fn crc_split_keeps_every_commit(s: SegmentView, v: Version)
    requires
        log_segment::segment_valid(s),
    ensures
        through_crc(s, v).listed.commits + after_crc(s, v).listed.commits == s.listed.commits,
{
    let c = s.listed.commits;
    assert forall|i: int| 0 <= i < c.len() implies (#[trigger] c[i]).version <= s.end_version by {
        assert(c[i].version == c[0].version + i);
        assert(c[c.len() - 1].version == c[0].version + (c.len() - 1));
    }
    lemma_split(c, s.checkpoint_version, v, s.end_version);
}

/// A commit that a catalog has ratified and that is still to be published.
#[derive(Debug, PartialEq, Eq)]
pub struct CatalogCommit {
    pub version: Version,
    /// Where the commit is now.
    pub location: String,
    /// Where it goes when it is published.
    pub published_location: String,
}

/// The mathematical value of a [`CatalogCommit`].
pub struct CatalogCommitView {
    pub version: Version,
    pub location: Seq<char>,
    pub published_location: Seq<char>,
}

impl View for CatalogCommit {
    type V = CatalogCommitView;

    open spec fn view(&self) -> CatalogCommitView {
        CatalogCommitView {
            version: self.version,
            location: self.location@,
            published_location: self.published_location@,
        }
    }
}

/// A text with zeros put in front until it has `n` characters.
pub open spec fn padded(s: Seq<char>, n: nat) -> Seq<char>
    decreases n - s.len(),
{
    if s.len() >= n {
        s
    } else {
        padded(seq!['0'] + s, n)
    }
}

/// The file name of a published commit.
pub open spec fn commit_file_name(v: Version) -> Seq<char> {
    padded(text::decimal(v as nat), 20) + ".json"@
}

/// The file name of a published commit: its version in twenty digits.
pub fn published_name(v: Version) -> (r: String)
    ensures
        r@ == commit_file_name(v),
{
    let mut digits = unsigned_text(v);
    proof {
        reveal_strlit("0");
    }
    while digits.as_str().unicode_len() < 20
        invariant
            padded(digits@, 20) == padded(text::decimal(v as nat), 20),
        decreases 20 - digits@.len(),
    {
        proof {
            reveal_strlit("0");
            assert("0"@ =~= seq!['0']);
        }
        digits = text2("0", digits.as_str());
    }
    text2(digits.as_str(), ".json")
}

/// The catalog commit that a staged commit file stands for.
pub open spec fn catalog_commit_of(root: Seq<char>, p: LogPathView) -> Result<
    CatalogCommitView,
    ErrorView,
> {
    match bindings::joined_url(root, commit_file_name(p.version)) {
        Ok(u) => Ok(
            CatalogCommitView {
                version: p.version,
                location: p.location.location,
                published_location: u,
            },
        ),
        Err(e) => Err(ErrorView::InvalidUrl(e)),
    }
}

/// The catalog commits of a list of staged commit files, or the first error.
pub open spec fn catalog_commits_of(root: Seq<char>, s: Seq<LogPathView>) -> Result<
    Seq<CatalogCommitView>,
    ErrorView,
>
    decreases s.len(),
{
    if s.len() == 0 {
        Ok(Seq::empty())
    } else {
        match catalog_commits_of(root, s.drop_last()) {
            Err(e) => Err(e),
            Ok(done) => match catalog_commit_of(root, s.last()) {
                Err(e) => Err(e),
                Ok(c) => Ok(done.push(c)),
            },
        }
    }
}

/// An error among the first files of a list is the error of the whole list.
proof fn lemma_catalog_error(root: Seq<char>, s: Seq<LogPathView>, n: int)
    requires
        0 <= n <= s.len(),
        catalog_commits_of(root, s.take(n)) is Err,
    ensures
        catalog_commits_of(root, s) == catalog_commits_of(root, s.take(n)),
    decreases s.len(),
{
    if n == s.len() {
        assert(s.take(n) =~= s);
    } else {
        assert(s.drop_last().take(n) =~= s.take(n));
        lemma_catalog_error(root, s.drop_last(), n);
    }
}

/// The staged commits of a listing that are not published yet.
pub open spec fn unpublished(listed: ListedView) -> Seq<LogPathView> {
    log_segment::selected(
        listed.commits,
        |p: LogPathView|
            p.file_type is StagedCommit && (listed.max_published matches Some(v) ==> v
                < p.version),
    )
}

/// The values of a list of catalog commits.
pub open spec fn catalog_commits_view(s: Seq<CatalogCommit>) -> Seq<CatalogCommitView> {
    Seq::new(s.len(), |i: int| s[i]@)
}

impl CatalogCommit {
    /// The catalog commit that a staged commit file stands for, given the place that it goes to when
    /// it is published.
    pub fn published_at(file: &ParsedLogPath, published_location: String) -> (r: CatalogCommit)
        ensures
            r@ == (CatalogCommitView {
                version: file@.version,
                location: file@.location.location,
                published_location: published_location@,
            }),
    {
        CatalogCommit {
            version: file.version,
            location: file.location.location.clone(),
            published_location,
        }
    }
}

impl LogSegment {
    /// The staged commit files of the segment that are not published yet.
    pub fn unpublished_commit_files(&self) -> (r: Vec<ParsedLogPath>)
        ensures
            path::paths_view(r@) == unpublished(self@.listed),
    {
        let files = &self.listed.ascending_commit_files;
        let published = self.listed.max_published_version;
        let ghost s = path::paths_view(files@);
        let ghost keep = |p: LogPathView|
            p.file_type is StagedCommit && (published matches Some(v) ==> v < p.version);
        assert(unpublished(self@.listed) == log_segment::selected(s, keep));
        let mut out: Vec<ParsedLogPath> = Vec::new();
        let mut i: usize = 0;
        assert(log_segment::selected(s.take(0), keep) =~= Seq::<LogPathView>::empty());
        assert(path::paths_view(out@) =~= Seq::<LogPathView>::empty());
        while i < files.len()
            invariant
                i <= files@.len(),
                s == path::paths_view(files@),
                keep == (|p: LogPathView|
                    p.file_type is StagedCommit && (published matches Some(v) ==> v < p.version)),
                path::paths_view(out@) == log_segment::selected(s.take(i as int), keep),
            decreases files.len() - i,
        {
            let ghost before = path::paths_view(out@);
            assert(s.take(i + 1).drop_last() =~= s.take(i as int));
            assert(s.take(i + 1).last() == files@[i as int]@);
            let file = &files[i];
            if matches!(file.file_type, LogPathFileType::StagedCommit) && is_above(
                published,
                file.version,
            ) {
                let copy = file.clone();
                out.push(copy);
                assert(path::paths_view(out@) =~= before.push(copy@));
            }
            i += 1;
        }
        assert(s.take(i as int) =~= s);
        out
    }

    /// The staged commits of the segment that are not published yet, each with the place it goes to
    /// when it is.
    pub fn get_unpublished_catalog_commits(&self) -> (r: DeltaResult<Vec<CatalogCommit>>)
        ensures
            catalog_commits_of(self@.log_root, unpublished(self@.listed)) matches Ok(c) ==> (
            r matches Ok(v) && catalog_commits_view(v@) == c),
            catalog_commits_of(self@.log_root, unpublished(self@.listed)) matches Err(e)
                ==> error::failure(r) == Some(e),
    {
        let files = self.unpublished_commit_files();
        let ghost root = self@.log_root;
        let ghost s = path::paths_view(files@);
        let mut commits: Vec<CatalogCommit> = Vec::new();
        let mut i: usize = 0;
        assert(s.take(0) =~= Seq::<LogPathView>::empty());
        assert(catalog_commits_view(commits@) =~= Seq::<CatalogCommitView>::empty());
        while i < files.len()
            invariant
                i <= files@.len(),
                root == self@.log_root,
                s == path::paths_view(files@),
                s == unpublished(self@.listed),
                catalog_commits_of(root, s.take(i as int)) == Ok::<
                    Seq<CatalogCommitView>,
                    ErrorView,
                >(catalog_commits_view(commits@)),
            decreases files.len() - i,
        {
            let ghost done = catalog_commits_view(commits@);
            assert(s.take(i + 1).drop_last() =~= s.take(i as int));
            assert(s.take(i + 1).last() == files@[i as int]@);
            let name = published_name(files[i].version);
            match join_url(self.log_root.as_str(), name.as_str()) {
                Ok(url) => {
                    let commit = CatalogCommit::published_at(&files[i], url);
                    commits.push(commit);
                    assert(catalog_commits_view(commits@) =~= done.push(commit@));
                },
                Err(e) => {
                    proof {
                        lemma_catalog_error(root, s, i + 1);
                    }
                    return Err(Error::InvalidUrl(e));
                },
            }
            i += 1;
        }
        assert(s.take(i as int) =~= s);
        Ok(commits)
    }
}

} // verus!
