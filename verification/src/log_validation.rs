//! The checks that a listing of log files must pass before it becomes a log segment.
use vstd::prelude::*;

use crate::error::{self, DeltaResult, Error, ErrorView};
use crate::path::{self, LogPathFileType, LogPathView, ParsedLogPath};
use crate::text::{self, text3, text4, unsigned_text};
use crate::Version;

verus! {

/// The first fault among the entries from `i` up to `n`.
pub open spec fn first_fault(
    fault: spec_fn(int) -> Option<ErrorView>,
    i: int,
    n: int,
) -> Option<ErrorView>
    decreases n - i,
{
    if i >= n {
        None
    } else if fault(i) is Some {
        fault(i)
    } else {
        first_fault(fault, i + 1, n)
    }
}

/// There is no first fault exactly where no entry is at fault.
pub proof fn lemma_first_fault(fault: spec_fn(int) -> Option<ErrorView>, i: int, n: int)
    ensures
        first_fault(fault, i, n) is None <==> forall|j: int|
            i <= j < n ==> #[trigger] fault(j) is None,
    decreases n - i,
{
    if i < n {
        lemma_first_fault(fault, i + 1, n);
        if fault(i) is None && first_fault(fault, i + 1, n) is None {
            assert forall|j: int| i <= j < n implies #[trigger] fault(j) is None by {}
        }
    }
}

/// The last version that a compaction file covers.
pub open spec fn compaction_hi(p: LogPathView) -> Version {
    match p.file_type {
        LogPathFileType::CompactedCommit { hi } => hi,
        _ => p.version,
    }
}

/// The order of compaction files: by first version, then by last version.
pub open spec fn compaction_order(a: LogPathView, b: LogPathView) -> bool {
    a.version < b.version || (a.version == b.version && compaction_hi(a) <= compaction_hi(b))
}

/// What is wrong with the compaction file at a position of a listing.
pub open spec fn compaction_fault(s: Seq<LogPathView>, i: int) -> Option<ErrorView> {
    if !(s[i].file_type is CompactedCommit) {
        Some(ErrorView::Generic("ascending_compaction_files contains non-compaction file"@))
    } else if s[i].version > compaction_hi(s[i]) {
        Some(
            ErrorView::Generic(
                "compaction file has start version "@ + text::decimal(s[i].version as nat)
                    + " > end version "@ + text::decimal(compaction_hi(s[i]) as nat),
            ),
        )
    } else if i + 1 < s.len() && s[i + 1].file_type is CompactedCommit && !compaction_order(
        s[i],
        s[i + 1],
    ) {
        Some(
            ErrorView::Generic(
                "ascending_compaction_files is not sorted: "@ + s[i].location.location + " -> "@
                    + s[i + 1].location.location,
            ),
        )
    } else {
        None
    }
}

/// The outcome of checking a listing of compaction files.
pub open spec fn compaction_check(s: Seq<LogPathView>) -> Option<ErrorView> {
    first_fault(|i: int| compaction_fault(s, i), 0, s.len() as int)
}

/// A usable listing of compaction files: each covers at least one version, and they come in order.
pub open spec fn compactions_valid(s: Seq<LogPathView>) -> bool {
    &&& forall|i: int|
        0 <= i < s.len() ==> (#[trigger] s[i]).file_type is CompactedCommit && s[i].version
            <= compaction_hi(s[i])
    &&& forall|i: int, j: int|
        0 <= i < j < s.len() ==> #[trigger] compaction_order(#[trigger] s[i], #[trigger] s[j])
}

/// A listing of compaction files passes the check exactly where it is usable.
pub proof fn lemma_compaction_check(s: Seq<LogPathView>)
    ensures
        compaction_check(s) is None <==> compactions_valid(s),
{
    let fault = |i: int| compaction_fault(s, i);
    lemma_first_fault(fault, 0, s.len() as int);
    if compaction_check(s) is None {
        assert forall|i: int| 0 <= i < s.len() implies (#[trigger] s[i]).file_type is CompactedCommit
            && s[i].version <= compaction_hi(s[i]) by {
            assert(fault(i) is None);
        }
        assert forall|i: int, j: int| 0 <= i < j < s.len() implies #[trigger] compaction_order(
            #[trigger] s[i],
            #[trigger] s[j],
        ) by {
            assert forall|k: int| 0 <= k < s.len() implies #[trigger] compaction_fault(
                s,
                k,
            ) is None by {
                assert(fault(k) is None);
            }
            lemma_compactions_sorted(s, i, j);
        }
    }
    if compactions_valid(s) {
        assert forall|i: int| 0 <= i < s.len() implies #[trigger] fault(i) is None by {
            assert(s[i].file_type is CompactedCommit);
            if i + 1 < s.len() {
                assert(compaction_order(s[i], s[i + 1]));
            }
        }
    }
}

/// Neighbours in order make a whole listing in order.
proof fn lemma_compactions_sorted(s: Seq<LogPathView>, i: int, j: int)
    requires
        0 <= i < j < s.len(),
        forall|k: int| 0 <= k < s.len() ==> #[trigger] compaction_fault(s, k) is None,
    ensures
        compaction_order(s[i], s[j]),
    decreases j - i,
{
    assert(compaction_fault(s, j - 1) is None);
    assert(compaction_fault(s, j) is None);
    if i < j - 1 {
        lemma_compactions_sorted(s, i, j - 1);
    }
}

/// Checks that a listing holds compaction files only, each with its first version no later than
/// its last, sorted by first and then by last version.
pub fn validate_compaction_files(compactions: &[ParsedLogPath]) -> (r: DeltaResult<()>)
    ensures
        error::failure(r) == compaction_check(path::paths_view(compactions@)),
        r is Ok <==> compactions_valid(path::paths_view(compactions@)),
{
    let ghost s = path::paths_view(compactions@);
    let ghost fault = |i: int| compaction_fault(s, i);
    proof {
        lemma_compaction_check(s);
    }
    let mut i: usize = 0;
    while i < compactions.len()
        invariant
            i <= compactions@.len(),
            s == path::paths_view(compactions@),
            fault == (|i: int| compaction_fault(s, i)),
            compaction_check(s) == first_fault(fault, i as int, s.len() as int),
            compaction_check(s) is None <==> compactions_valid(s),
        decreases compactions.len() - i,
    {
        let f = &compactions[i];
        assert(s[i as int] == f@);
        assert(fault(i as int) == compaction_fault(s, i as int));
        let hi: Version = match f.file_type {
            LogPathFileType::CompactedCommit { hi } => hi,
            _ => {
                return Err(
                    Error::generic("ascending_compaction_files contains non-compaction file"),
                );
            },
        };
        if f.version > hi {
            let lo = unsigned_text(f.version);
            let end = unsigned_text(hi);
            return Err(
                Error::Generic(
                    text4(
                        "compaction file has start version ",
                        lo.as_str(),
                        " > end version ",
                        end.as_str(),
                    ),
                ),
            );
        }
        if i + 1 < compactions.len() {
            let next = &compactions[i + 1];
            assert(s[i + 1] == next@);
            if let LogPathFileType::CompactedCommit { hi: next_hi } = next.file_type {
                if !(f.version < next.version || (f.version == next.version && hi <= next_hi)) {
                    return Err(
                        Error::Generic(
                            text4(
                                "ascending_compaction_files is not sorted: ",
                                f.location.location.as_str(),
                                " -> ",
                                next.location.location.as_str(),
                            ),
                        ),
                    );
                }
            }
        }
        i += 1;
    }
    Ok(())
}

/// What is wrong with the checkpoint file at a position of a listing.
pub open spec fn checkpoint_fault(s: Seq<LogPathView>, i: int) -> Option<ErrorView> {
    if !path::checkpoint_type(s[i].file_type) {
        Some(ErrorView::Generic("checkpoint_parts contains non-checkpoint file"@))
    } else if s[i].version != s[0].version {
        Some(ErrorView::Generic("multi-part checkpoint parts have different versions"@))
    } else {
        match s[i].file_type {
            LogPathFileType::MultiPartCheckpoint { num_parts, .. } => if num_parts == s.len() {
                None
            } else {
                Some(
                    ErrorView::Generic(
                        "multi-part checkpoint part count mismatch: slice has "@ + text::decimal(s.len())
                            + " parts but num_parts field says "@ + text::decimal(num_parts as nat),
                    ),
                )
            },
            _ => if s.len() > 1 {
                Some(
                    ErrorView::Generic(
                        "multi-part checkpoint part count mismatch: expected "@ + text::decimal(s.len())
                            + " multi-part checkpoint files but got a non-multi-part checkpoint"@,
                    ),
                )
            } else {
                None
            },
        }
    }
}

/// The number of a part of a checkpoint in several parts.
pub open spec fn part_number(t: LogPathFileType) -> Option<int> {
    match t {
        LogPathFileType::MultiPartCheckpoint { part_num, .. } => Some(part_num as int),
        _ => None,
    }
}

/// Whether the parts in a list of checkpoint files have the numbers from one to the length of the
/// list, in any order and each at most once. Where every file is a part, these are all the parts.
pub open spec fn parts_numbered(s: Seq<LogPathView>) -> bool {
    &&& forall|i: int|
        0 <= i < s.len() ==> (part_number((#[trigger] s[i]).file_type) matches Some(k) ==> 1 <= k
            <= s.len())
    &&& forall|i: int, j: int|
        0 <= i < j < s.len() ==> (part_number((#[trigger] s[i]).file_type) matches Some(k) ==> part_number(
            (#[trigger] s[j]).file_type,
        ) != Some(k))
}

/// The error for a checkpoint in several parts of which one is missing.
pub open spec fn missing_part_error() -> ErrorView {
    ErrorView::Generic("multi-part checkpoint does not have all its parts"@)
}

/// The first file of a checkpoint that does not belong to it.
pub open spec fn checkpoint_files_check(s: Seq<LogPathView>) -> Option<ErrorView> {
    first_fault(|i: int| checkpoint_fault(s, i), 0, s.len() as int)
}

/// The outcome of checking the files of a checkpoint.
pub open spec fn checkpoint_check(s: Seq<LogPathView>) -> Option<ErrorView> {
    if checkpoint_files_check(s) is Some {
        checkpoint_files_check(s)
    } else if !parts_numbered(s) {
        Some(missing_part_error())
    } else {
        None
    }
}

/// Whether the files of a checkpoint belong together: none, one file, or as many parts of one
/// version as each part names.
pub open spec fn checkpoint_files_valid(s: Seq<LogPathView>) -> bool {
    forall|i: int|
        0 <= i < s.len() ==> {
            &&& path::checkpoint_type((#[trigger] s[i]).file_type)
            &&& s[i].version == s[0].version
            &&& s[i].file_type matches LogPathFileType::MultiPartCheckpoint {
                num_parts,
                ..
            } ==> num_parts == s.len()
            &&& s.len() > 1 ==> s[i].file_type is MultiPartCheckpoint
        }
}

/// A usable checkpoint: none, one file, or all the parts of one version, each once.
pub open spec fn checkpoint_valid(s: Seq<LogPathView>) -> bool {
    checkpoint_files_valid(s) && parts_numbered(s)
}

/// The files of a checkpoint pass the check exactly where they make a usable checkpoint.
pub proof fn lemma_checkpoint_check(s: Seq<LogPathView>)
    ensures
        checkpoint_files_check(s) is None <==> checkpoint_files_valid(s),
        checkpoint_check(s) is None <==> checkpoint_valid(s),
{
    let fault = |i: int| checkpoint_fault(s, i);
    lemma_first_fault(fault, 0, s.len() as int);
    if checkpoint_files_check(s) is None {
        assert forall|i: int| 0 <= i < s.len() implies {
            &&& path::checkpoint_type((#[trigger] s[i]).file_type)
            &&& s[i].version == s[0].version
            &&& s[i].file_type matches LogPathFileType::MultiPartCheckpoint {
                num_parts,
                ..
            } ==> num_parts == s.len()
            &&& s.len() > 1 ==> s[i].file_type is MultiPartCheckpoint
        } by {
            assert(fault(i) is None);
        }
    }
    if checkpoint_files_valid(s) {
        assert forall|i: int| 0 <= i < s.len() implies #[trigger] fault(i) is None by {
            assert(path::checkpoint_type(s[i].file_type));
        }
    }
}

/// A usable checkpoint has all its parts: where one of its files is a part, every number from one to
/// the number of parts that the file names is the number of one file of the checkpoint.
pub proof fn checkpoints_have_all_their_parts(s: Seq<LogPathView>, i: int, k: int)
    requires
        checkpoint_valid(s),
        0 <= i < s.len(),
        s[i].file_type is MultiPartCheckpoint,
        1 <= k <= s[i].file_type->num_parts,
    ensures
        s[i].file_type->num_parts == s.len(),
        exists|j: int| 0 <= j < s.len() && part_number((#[trigger] s[j]).file_type) == Some(k),
{
    let numbers = Seq::new(s.len(), |j: int| part_number(s[j].file_type)->0);
    assert(forall|j: int| 0 <= j < s.len() ==> (#[trigger] s[j]).file_type is MultiPartCheckpoint);
    assert forall|a: int, b: int| 0 <= a < numbers.len() && 0 <= b < numbers.len() && a != b implies
        numbers[a] != numbers[b] by {
        if a < b {
            assert(part_number(s[a].file_type) != part_number(s[b].file_type));
        } else {
            assert(part_number(s[b].file_type) != part_number(s[a].file_type));
        }
    }
    numbers.unique_seq_to_set();
    let all = vstd::set_lib::set_int_range(1, s.len() as int + 1);
    vstd::set_lib::lemma_int_range(1, s.len() as int + 1);
    assert(numbers.to_set().subset_of(all)) by {
        assert forall|n: int| numbers.to_set().contains(n) implies #[trigger] all.contains(n) by {
            let j = choose|j: int| 0 <= j < numbers.len() && numbers[j] == n;
            assert(part_number(s[j].file_type) == Some(n));
        }
    }
    vstd::set_lib::lemma_subset_equality(numbers.to_set(), all);
    assert(numbers.to_set().contains(k));
    let j = choose|j: int| 0 <= j < numbers.len() && numbers[j] == k;
    assert(part_number(s[j].file_type) == Some(k));
}

/// Whether the parts in a list of checkpoint files have the numbers from one to the length of the
/// list, each at most once.
fn are_parts_numbered(parts: &[ParsedLogPath]) -> (r: bool)
    ensures
        r == parts_numbered(path::paths_view(parts@)),
{
    let ghost s = path::paths_view(parts@);
    let n: usize = parts.len();
    let mut seen: Vec<bool> = Vec::new();
    let mut i: usize = 0;
    while i < n
        invariant
            i <= n,
            seen@.len() == i,
            forall|k: int| 0 <= k < i ==> !#[trigger] seen@[k],
        decreases n - i,
    {
        seen.push(false);
        i += 1;
    }
    i = 0;
    while i < n
        invariant
            i <= n,
            n == parts@.len() == seen@.len(),
            s == path::paths_view(parts@),
            forall|j: int|
                0 <= j < i ==> (part_number((#[trigger] s[j]).file_type) matches Some(k) ==> 1 <= k
                    <= n && seen@[k - 1]),
            forall|k: int|
                0 <= k < n && #[trigger] seen@[k] ==> exists|j: int|
                    0 <= j < i && part_number((#[trigger] s[j]).file_type) == Some(k + 1),
            forall|a: int, b: int|
                0 <= a < b < i ==> (part_number((#[trigger] s[a]).file_type) matches Some(k)
                    ==> part_number((#[trigger] s[b]).file_type) != Some(k)),
        decreases n - i,
    {
        assert(s[i as int] == parts@[i as int]@);
        if let LogPathFileType::MultiPartCheckpoint { part_num, .. } = parts[i].file_type {
            let k: usize = part_num as usize;
            assert(part_number(s[i as int].file_type) == Some(k as int));
            if k == 0 || k > n {
                return false;
            }
            if seen[k - 1] {
                assert(seen@[k - 1]);
                let ghost j = choose|j: int|
                    0 <= j < i && part_number((#[trigger] s[j]).file_type) == Some(k as int);
                assert(part_number(s[j].file_type) == Some(k as int));
                return false;
            }
            seen[k - 1] = true;
        }
        i += 1;
    }
    true
}

/// Checks that the files of a checkpoint are checkpoint files of one version and that a checkpoint
/// of several parts has all of them, each once.
pub fn validate_checkpoint_parts(parts: &[ParsedLogPath]) -> (r: DeltaResult<()>)
    ensures
        error::failure(r) == checkpoint_check(path::paths_view(parts@)),
        r is Ok <==> checkpoint_valid(path::paths_view(parts@)),
{
    let ghost s = path::paths_view(parts@);
    let ghost fault = |i: int| checkpoint_fault(s, i);
    proof {
        lemma_checkpoint_check(s);
    }
    if parts.len() == 0 {
        return Ok(());
    }
    let n: usize = parts.len();
    let first_version: Version = parts[0].version;
    assert(s[0] == parts@[0]@);
    let mut i: usize = 0;
    while i < n
        invariant
            i <= n,
            n == parts@.len() > 0,
            s == path::paths_view(parts@),
            first_version == s[0].version,
            fault == (|i: int| checkpoint_fault(s, i)),
            checkpoint_files_check(s) == first_fault(fault, i as int, s.len() as int),
            checkpoint_check(s) is None <==> checkpoint_valid(s),
        decreases n - i,
    {
        let p = &parts[i];
        assert(s[i as int] == p@);
        assert(fault(i as int) == checkpoint_fault(s, i as int));
        if !p.is_checkpoint() {
            return Err(Error::generic("checkpoint_parts contains non-checkpoint file"));
        }
        if p.version != first_version {
            return Err(Error::generic("multi-part checkpoint parts have different versions"));
        }
        match p.file_type {
            LogPathFileType::MultiPartCheckpoint { num_parts, .. } => {
                if num_parts as usize != n {
                    let have = unsigned_text(n as u64);
                    let named = unsigned_text(num_parts as u64);
                    return Err(
                        Error::Generic(
                            text4(
                                "multi-part checkpoint part count mismatch: slice has ",
                                have.as_str(),
                                " parts but num_parts field says ",
                                named.as_str(),
                            ),
                        ),
                    );
                }
            },
            _ => {
                if n > 1 {
                    let have = unsigned_text(n as u64);
                    return Err(
                        Error::Generic(
                            text3(
                                "multi-part checkpoint part count mismatch: expected ",
                                have.as_str(),
                                " multi-part checkpoint files but got a non-multi-part checkpoint",
                            ),
                        ),
                    );
                }
            },
        }
        i += 1;
    }
    if !are_parts_numbered(parts) {
        return Err(Error::generic("multi-part checkpoint does not have all its parts"));
    }
    Ok(())
}

/// Whether a listing holds commit files only.
pub open spec fn commit_types_valid(s: Seq<LogPathView>) -> bool {
    forall|i: int| 0 <= i < s.len() ==> path::commit_type((#[trigger] s[i]).file_type)
}

/// The error for a listing of commit files that holds something else.
pub open spec fn commit_type_error() -> ErrorView {
    ErrorView::Generic("ascending_commit_files contains non-commit file"@)
}

/// Checks that a listing holds commit files only.
pub fn validate_commit_file_types(commits: &[ParsedLogPath]) -> (r: DeltaResult<()>)
    ensures
        r is Ok <==> commit_types_valid(path::paths_view(commits@)),
        r matches Err(e) ==> e@ == commit_type_error(),
{
    let ghost s = path::paths_view(commits@);
    let mut i: usize = 0;
    while i < commits.len()
        invariant
            i <= commits@.len(),
            s == path::paths_view(commits@),
            forall|j: int| 0 <= j < i ==> path::commit_type((#[trigger] s[j]).file_type),
        decreases commits.len() - i,
    {
        assert(s[i as int] == commits@[i as int]@);
        if !commits[i].is_commit() {
            return Err(Error::generic("ascending_commit_files contains non-commit file"));
        }
        i += 1;
    }
    Ok(())
}

/// Whether the versions of a listing follow one another without a gap.
pub open spec fn contiguous(s: Seq<LogPathView>) -> bool {
    forall|i: int| 0 <= i < s.len() ==> (#[trigger] s[i]).version == s[0].version + i
}

/// What is wrong with the step from one commit to the next.
pub open spec fn contiguity_fault(s: Seq<LogPathView>, i: int) -> Option<ErrorView> {
    if s[i].version + 1 != s[i + 1].version {
        Some(
            ErrorView::Generic(
                "Expected contiguous commit files, but found gap: "@ + s[i].location.location
                    + " -> "@ + s[i + 1].location.location,
            ),
        )
    } else {
        None
    }
}

/// The outcome of checking that commits follow one another.
pub open spec fn contiguity_check(s: Seq<LogPathView>) -> Option<ErrorView> {
    first_fault(|i: int| contiguity_fault(s, i), 0, s.len() - 1)
}

/// Commits pass the check exactly where they follow one another without a gap.
pub proof fn lemma_contiguity_check(s: Seq<LogPathView>)
    ensures
        contiguity_check(s) is None <==> contiguous(s),
{
    let fault = |i: int| contiguity_fault(s, i);
    lemma_first_fault(fault, 0, s.len() - 1);
    if contiguity_check(s) is None {
        assert forall|i: int| 0 <= i < s.len() implies (#[trigger] s[i]).version == s[0].version
            + i by {
            assert forall|k: int| 0 <= k < s.len() - 1 implies #[trigger] contiguity_fault(
                s,
                k,
            ) is None by {
                assert(fault(k) is None);
            }
            lemma_contiguous_from_start(s, i);
        }
    }
    if contiguous(s) {
        assert forall|i: int| 0 <= i < s.len() - 1 implies #[trigger] fault(i) is None by {
            assert(s[i].version == s[0].version + i);
            assert(s[i + 1].version == s[0].version + i + 1);
        }
    }
}

proof fn lemma_contiguous_from_start(s: Seq<LogPathView>, i: int)
    requires
        0 <= i < s.len(),
        forall|k: int| 0 <= k < s.len() - 1 ==> #[trigger] contiguity_fault(s, k) is None,
    ensures
        s[i].version == s[0].version + i,
    decreases i,
{
    if i > 0 {
        lemma_contiguous_from_start(s, i - 1);
        assert(contiguity_fault(s, i - 1) is None);
    }
}

/// Checks that each commit follows the one before it without a gap.
pub fn validate_commit_files_contiguous(commits: &[ParsedLogPath]) -> (r: DeltaResult<()>)
    ensures
        error::failure(r) == contiguity_check(path::paths_view(commits@)),
        r is Ok <==> contiguous(path::paths_view(commits@)),
{
    let ghost s = path::paths_view(commits@);
    let ghost fault = |i: int| contiguity_fault(s, i);
    proof {
        lemma_contiguity_check(s);
    }
    if commits.len() == 0 {
        return Ok(());
    }
    let mut i: usize = 0;
    while i < commits.len() - 1
        invariant
            i <= commits@.len() - 1,
            s == path::paths_view(commits@),
            fault == (|i: int| contiguity_fault(s, i)),
            contiguity_check(s) == first_fault(fault, i as int, s.len() - 1),
            contiguity_check(s) is None <==> contiguous(s),
        decreases commits.len() - i,
    {
        let a = &commits[i];
        let b = &commits[i + 1];
        assert(s[i as int] == a@ && s[i + 1] == b@);
        assert(fault(i as int) == contiguity_fault(s, i as int));
        if a.version == u64::MAX || a.version + 1 != b.version {
            return Err(
                Error::Generic(
                    text4(
                        "Expected contiguous commit files, but found gap: ",
                        a.location.location.as_str(),
                        " -> ",
                        b.location.location.as_str(),
                    ),
                ),
            );
        }
        i += 1;
    }
    Ok(())
}

/// Whether the first commit, if there is one, comes right after the checkpoint, if there is one.
pub open spec fn no_checkpoint_gap(checkpoint_version: Option<Version>, s: Seq<LogPathView>) -> bool {
    checkpoint_version matches Some(v) ==> s.len() > 0 ==> v + 1 == s[0].version
}

/// The error for a gap between a checkpoint and the first commit after it.
pub open spec fn checkpoint_gap_error(v: Version, first: LogPathView) -> ErrorView {
    ErrorView::InvalidCheckpoint(
        "Gap between checkpoint version "@ + text::decimal(v as nat) + " and next commit "@ + text::decimal(
            first.version as nat,
        ),
    )
}

/// Checks that there is no gap between the checkpoint and the first commit after it.
pub fn validate_checkpoint_commit_gap(
    checkpoint_version: Option<Version>,
    commits: &[ParsedLogPath],
) -> (r: DeltaResult<()>)
    ensures
        r is Ok <==> no_checkpoint_gap(checkpoint_version, path::paths_view(commits@)),
        r matches Err(e) ==> e@ == checkpoint_gap_error(
            checkpoint_version->0,
            path::paths_view(commits@)[0],
        ),
{
    if let Some(v) = checkpoint_version {
        if commits.len() > 0 {
            let first = &commits[0];
            assert(path::paths_view(commits@)[0] == first@);
            if v == u64::MAX || v + 1 != first.version {
                let have = unsigned_text(v);
                let next = unsigned_text(first.version);
                return Err(
                    Error::InvalidCheckpoint(
                        text4(
                            "Gap between checkpoint version ",
                            have.as_str(),
                            " and next commit ",
                            next.as_str(),
                        ),
                    ),
                );
            }
        }
    }
    Ok(())
}

/// The version that a segment ends at: that of the last commit, or else of the checkpoint.
pub open spec fn effective_version(
    commits: Seq<LogPathView>,
    parts: Seq<LogPathView>,
) -> Option<Version> {
    if commits.len() > 0 {
        Some(commits.last().version)
    } else if parts.len() > 0 {
        Some(parts[0].version)
    } else {
        None
    }
}

/// The outcome of checking the version that a segment ends at against the one asked for.
pub open spec fn end_version_check(
    commits: Seq<LogPathView>,
    parts: Seq<LogPathView>,
    end_version: Option<Version>,
) -> Result<Version, ErrorView> {
    match effective_version(commits, parts) {
        None => Err(ErrorView::Generic("No files in log segment"@)),
        Some(v) => if end_version matches Some(end) && end != v {
            Err(
                ErrorView::Generic(
                    "LogSegment end version "@ + text::decimal(v as nat)
                        + " not the same as the specified end version "@ + text::decimal(
                        end_version->0 as nat,
                    ),
                ),
            )
        } else {
            Ok(v)
        },
    }
}

/// Finds the version that a segment ends at; fails where there are no files, or where the segment
/// does not end at the version asked for.
pub fn validate_end_version(
    commits: &[ParsedLogPath],
    checkpoint_parts: &[ParsedLogPath],
    end_version: Option<Version>,
) -> (r: DeltaResult<Version>)
    ensures
        error::outcome(r) == end_version_check(
            path::paths_view(commits@),
            path::paths_view(checkpoint_parts@),
            end_version,
        ),
{
    let effective: Version = if commits.len() > 0 {
        commits[commits.len() - 1].version
    } else if checkpoint_parts.len() > 0 {
        checkpoint_parts[0].version
    } else {
        return Err(Error::generic("No files in log segment"));
    };
    if let Some(end) = end_version {
        if effective != end {
            let have = unsigned_text(effective);
            let want = unsigned_text(end);
            return Err(
                Error::Generic(
                    text4(
                        "LogSegment end version ",
                        have.as_str(),
                        " not the same as the specified end version ",
                        want.as_str(),
                    ),
                ),
            );
        }
    }
    Ok(effective)
}

} // verus!
