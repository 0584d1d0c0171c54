//! How the files that a commit adds and removes change the number and the sizes of the files of a
//! table.
use vstd::prelude::*;

use crate::crc::{FileSizeHistogram, FileStatsDelta, FileStatsDeltaView, HistogramView};
use crate::dv_update;
use crate::error::{self, DeltaResult, Error, ErrorView};

verus! {

/// The sizes of the files that a transaction has staged: for each batch of files, the size of each
/// of its rows.
#[derive(Debug, PartialEq, Eq)]
pub struct StagedSizes {
    pub added: Vec<Vec<i64>>,
    /// Rows that are not selected are among them.
    pub removed: Vec<Vec<i64>>,
}

/// The mathematical value of [`StagedSizes`].
pub struct StagedSizesView {
    pub added: Seq<Seq<i64>>,
    pub removed: Seq<Seq<i64>>,
}

impl View for StagedSizes {
    type V = StagedSizesView;

    open spec fn view(&self) -> StagedSizesView {
        StagedSizesView {
            added: batches_view(self.added@),
            removed: batches_view(self.removed@),
        }
    }
}

/// The values of lists of sizes.
pub open spec fn batches_view(s: Seq<Vec<i64>>) -> Seq<Seq<i64>> {
    Seq::new(s.len(), |i: int| s[i]@)
}

/// The sizes of all batches, one batch after the other.
pub open spec fn all_sizes(batches: Seq<Seq<i64>>) -> Seq<i64>
    decreases batches.len(),
{
    if batches.len() == 0 {
        Seq::empty()
    } else {
        all_sizes(batches.drop_last()) + batches.last()
    }
}

/// The sizes of the selected rows of a batch.
pub open spec fn batch_selected(sizes: Seq<i64>, selection: Seq<bool>) -> Seq<i64>
    decreases sizes.len(),
{
    if sizes.len() == 0 {
        Seq::empty()
    } else {
        let front = batch_selected(sizes.drop_last(), selection);
        if dv_update::row_selected(selection, sizes.len() - 1) {
            front.push(sizes.last())
        } else {
            front
        }
    }
}

/// The sizes of the selected rows of all batches, one batch after the other.
pub open spec fn all_selected(batches: Seq<Seq<i64>>, selections: Seq<Seq<bool>>) -> Seq<i64>
    decreases batches.len(),
{
    if batches.len() == 0 || selections.len() != batches.len() {
        Seq::empty()
    } else {
        all_selected(batches.drop_last(), selections.drop_last()) + batch_selected(
            batches.last(),
            selections.last(),
        )
    }
}

/// The sizes of all batches, one batch after the other.
pub fn sizes_of_all(batches: &Vec<Vec<i64>>) -> (r: Vec<i64>)
    ensures
        r@ == all_sizes(batches_view(batches@)),
{
    let ghost b = batches_view(batches@);
    let mut out: Vec<i64> = Vec::new();
    let mut i: usize = 0;
    assert(b.take(0) =~= Seq::<Seq<i64>>::empty());
    while i < batches.len()
        invariant
            i <= batches@.len(),
            b == batches_view(batches@),
            out@ == all_sizes(b.take(i as int)),
        decreases batches.len() - i,
    {
        let ghost before = out@;
        let batch = &batches[i];
        assert(b[i as int] == batch@);
        assert(b.take(i + 1).drop_last() =~= b.take(i as int));
        assert(b.take(i + 1).last() == b[i as int]);
        let mut j: usize = 0;
        assert(before + batch@.take(0) =~= before);
        while j < batch.len()
            invariant
                j <= batch@.len(),
                out@ == before + batch@.take(j as int),
            decreases batch.len() - j,
        {
            out.push(batch[j]);
            assert(batch@.take(j + 1) =~= batch@.take(j as int).push(batch@[j as int]));
            assert(out@ =~= before + batch@.take(j + 1));
            j += 1;
        }
        assert(batch@.take(j as int) =~= batch@);
        i += 1;
    }
    assert(b.take(i as int) =~= b);
    out
}

/// Appends the sizes of the selected rows of a batch to a list.
pub fn append_selected(sizes: &Vec<i64>, selection: &Vec<bool>, out: &mut Vec<i64>)
    ensures
        final(out)@ == old(out)@ + batch_selected(sizes@, selection@),
{
    let ghost before = out@;
    let mut i: usize = 0;
    assert(sizes@.take(0) =~= Seq::<i64>::empty());
    assert(before + batch_selected(sizes@.take(0), selection@) =~= before);
    while i < sizes.len()
        invariant
            i <= sizes@.len(),
            out@ == before + batch_selected(sizes@.take(i as int), selection@),
        decreases sizes.len() - i,
    {
        assert(sizes@.take(i + 1).drop_last() =~= sizes@.take(i as int));
        assert(sizes@.take(i + 1).last() == sizes@[i as int]);
        if i >= selection.len() || selection[i] {
            out.push(sizes[i]);
        }
        assert(out@ =~= before + batch_selected(sizes@.take(i + 1), selection@));
        i += 1;
    }
    assert(sizes@.take(i as int) =~= sizes@);
}

/// The sum of sizes.
pub open spec fn sum_of(s: Seq<i64>) -> int
    decreases s.len(),
{
    if s.len() == 0 {
        0
    } else {
        sum_of(s.drop_last()) + s.last()
    }
}

/// Whether a number fits.
pub open spec fn fits(n: int) -> bool {
    i64::MIN <= n <= i64::MAX
}

/// Whether the numbers and the sums of the added and the removed files fit, and their difference.
pub open spec fn sums_fit(added: Seq<i64>, removed: Seq<i64>) -> bool {
    &&& added.len() <= i64::MAX && removed.len() <= i64::MAX
    &&& fits(sum_of(added)) && fits(sum_of(removed))
    &&& fits(sum_of(added) - sum_of(removed))
}

/// Whether boundaries are those of a histogram: they ascend from zero.
pub open spec fn bins_valid(b: Seq<i64>) -> bool {
    &&& b.len() > 0 && b[0] == 0
    &&& forall|i: int, j: int| 0 <= i < j < b.len() ==> b[i] < b[j]
}

/// Whether a size falls into a bin.
pub open spec fn in_bin(b: Seq<i64>, bin: int, size: i64) -> bool {
    b[bin] <= size && (bin + 1 < b.len() ==> size < b[bin + 1])
}

/// How many sizes fall into a bin.
pub open spec fn bin_count(s: Seq<i64>, b: Seq<i64>, bin: int) -> nat
    decreases s.len(),
{
    if s.len() == 0 {
        0
    } else {
        bin_count(s.drop_last(), b, bin) + (if in_bin(b, bin, s.last()) {
            1nat
        } else {
            0nat
        })
    }
}

/// The sum of the sizes that fall into a bin.
pub open spec fn bin_bytes(s: Seq<i64>, b: Seq<i64>, bin: int) -> int
    decreases s.len(),
{
    if s.len() == 0 {
        0
    } else {
        bin_bytes(s.drop_last(), b, bin) + (if in_bin(b, bin, s.last()) {
            s.last() as int
        } else {
            0int
        })
    }
}

/// Whether no size is negative.
pub open spec fn none_negative(s: Seq<i64>) -> bool {
    forall|i: int| 0 <= i < s.len() ==> #[trigger] s[i] >= 0
}

/// The histogram of the added files, less that of the removed ones.
pub open spec fn histogram_of(added: Seq<i64>, removed: Seq<i64>, b: Seq<i64>) -> HistogramView {
    HistogramView {
        boundaries: b,
        counts: Seq::new(
            b.len(),
            |i: int| (bin_count(added, b, i) - bin_count(removed, b, i)) as i64,
        ),
        bytes: Seq::new(
            b.len(),
            |i: int| (bin_bytes(added, b, i) - bin_bytes(removed, b, i)) as i64,
        ),
    }
}

/// Why the change cannot be told: the bins are not those of a histogram, a file has no bin, or a sum
/// does not fit.
pub open spec fn sizes_fault(
    added: Seq<i64>,
    removed: Seq<i64>,
    boundaries: Option<Seq<i64>>,
) -> Option<ErrorView> {
    if boundaries matches Some(b) && !bins_valid(b) {
        Some(ErrorView::Generic("The bins of the file size histogram do not ascend from 0"@))
    } else if boundaries is Some && !(none_negative(added) && none_negative(removed)) {
        Some(ErrorView::Generic("The size of a file is negative"@))
    } else if !sums_fit(added, removed) {
        Some(ErrorView::Generic("The sizes of the files of the commit do not fit"@))
    } else {
        None
    }
}

/// How many files and bytes are added, less those that are removed, in all and for each bin.
pub open spec fn sizes_delta(
    added: Seq<i64>,
    removed: Seq<i64>,
    boundaries: Option<Seq<i64>>,
) -> FileStatsDeltaView {
    FileStatsDeltaView {
        net_files: (added.len() - removed.len()) as i64,
        net_bytes: (sum_of(added) - sum_of(removed)) as i64,
        histogram: match boundaries {
            Some(b) => Some(histogram_of(added, removed, b)),
            None => None,
        },
    }
}

/// The value of optional boundaries.
pub open spec fn opt_boundaries(b: Option<&Vec<i64>>) -> Option<Seq<i64>> {
    match b {
        Some(b) => Some(b@),
        None => None,
    }
}

/// The sums of sizes that are not negative grow with the sizes, and what falls into a bin is no more
/// than all.
pub proof fn lemma_bin_within(s: Seq<i64>, b: Seq<i64>, bin: int, n: int)
    requires
        none_negative(s),
        0 <= n <= s.len(),
    ensures
        0 <= bin_bytes(s.take(n), b, bin) <= bin_bytes(s, b, bin) <= sum_of(s),
        bin_count(s.take(n), b, bin) <= bin_count(s, b, bin) <= s.len(),
    decreases s.len(),
{
    if s.len() > 0 {
        let front = s.drop_last();
        assert(s.last() == s[s.len() - 1]);
        assert(none_negative(front)) by {
            assert forall|i: int| 0 <= i < front.len() implies #[trigger] front[i] >= 0 by {
                assert(front[i] == s[i]);
            }
        }
        if n == s.len() {
            assert(s.take(n) =~= s);
            lemma_bin_within(front, b, bin, n - 1);
            assert(front.take(n - 1) =~= front);
        } else {
            lemma_bin_within(front, b, bin, n);
            assert(front.take(n) =~= s.take(n));
        }
    } else {
        assert(s.take(n) =~= s);
    }
}

/// A size that is not negative falls into exactly one bin.
proof fn lemma_one_bin(b: Seq<i64>, size: i64, n: int) -> (bin: int)
    requires
        bins_valid(b),
        size >= 0,
        1 <= n <= b.len(),
        n < b.len() ==> size < b[n],
    ensures
        0 <= bin < n,
        in_bin(b, bin, size),
        forall|i: int| 0 <= i < b.len() && i != bin ==> !in_bin(b, i, size),
    decreases n,
{
    if b[n - 1] <= size {
        let bin = n - 1;
        assert forall|i: int| 0 <= i < b.len() && i != bin implies !in_bin(b, i, size) by {
            if i < bin {
                assert(b[i + 1] <= b[bin]) by {
                    if i + 1 < bin {
                        assert(b[i + 1] < b[bin]);
                    }
                }
            } else {
                assert(b[bin + 1] <= b[i]) by {
                    if bin + 1 < i {
                        assert(b[bin + 1] < b[i]);
                    }
                }
            }
        }
        bin
    } else {
        lemma_one_bin(b, size, n - 1)
    }
}

/// The counts of the first bins, taken together.
pub open spec fn counts_of_bins(s: Seq<i64>, b: Seq<i64>, n: nat) -> int
    decreases n,
{
    if n == 0 {
        0
    } else {
        counts_of_bins(s, b, (n - 1) as nat) + bin_count(s, b, n - 1)
    }
}

/// The bytes of the first bins, taken together.
pub open spec fn bytes_of_bins(s: Seq<i64>, b: Seq<i64>, n: nat) -> int
    decreases n,
{
    if n == 0 {
        0
    } else {
        bytes_of_bins(s, b, (n - 1) as nat) + bin_bytes(s, b, n - 1)
    }
}

/// One more size raises the bins up to a given one by what falls into them.
proof fn lemma_bins_of_one_more(s: Seq<i64>, b: Seq<i64>, bin: int, n: nat)
    requires
        s.len() > 0,
        n <= b.len(),
        0 <= bin < b.len(),
        in_bin(b, bin, s.last()),
        forall|i: int| 0 <= i < b.len() && i != bin ==> !in_bin(b, i, s.last()),
    ensures
        counts_of_bins(s, b, n) == counts_of_bins(s.drop_last(), b, n) + (if bin < n {
            1int
        } else {
            0int
        }),
        bytes_of_bins(s, b, n) == bytes_of_bins(s.drop_last(), b, n) + (if bin < n {
            s.last() as int
        } else {
            0int
        }),
    decreases n,
{
    if n > 0 {
        lemma_bins_of_one_more(s, b, bin, (n - 1) as nat);
    }
}

/// The bins hold nothing where there are no sizes.
proof fn lemma_empty_bins(b: Seq<i64>, n: nat)
    ensures
        counts_of_bins(Seq::empty(), b, n) == 0,
        bytes_of_bins(Seq::empty(), b, n) == 0,
    decreases n,
{
    if n > 0 {
        lemma_empty_bins(b, (n - 1) as nat);
    }
}

/// A histogram accounts for every file: the bins together hold as many files and bytes as there are.
pub proof fn bins_hold_every_file(s: Seq<i64>, b: Seq<i64>)
    requires
        bins_valid(b),
        none_negative(s),
    ensures
        counts_of_bins(s, b, b.len()) == s.len(),
        bytes_of_bins(s, b, b.len()) == sum_of(s),
    decreases s.len(),
{
    if s.len() == 0 {
        assert(s =~= Seq::empty());
        lemma_empty_bins(b, b.len());
    } else {
        let front = s.drop_last();
        assert(s.last() == s[s.len() - 1]);
        assert forall|i: int| 0 <= i < front.len() implies #[trigger] front[i] >= 0 by {
            assert(front[i] == s[i]);
        }
        bins_hold_every_file(front, b);
        let bin = lemma_one_bin(b, s.last(), b.len() as int);
        lemma_bins_of_one_more(s, b, bin, b.len());
    }
}

/// The bins of a change account for every file: taken together, they add up to the files and the bytes
/// of the change.
pub proof fn bins_add_up_to_the_change(added: Seq<i64>, removed: Seq<i64>, b: Seq<i64>)
    requires
        sizes_fault(added, removed, Some(b)) is None,
    ensures
        ({
            let delta = sizes_delta(added, removed, Some(b));
            &&& delta.histogram == Some(histogram_of(added, removed, b))
            &&& sum_of(histogram_of(added, removed, b).counts) == delta.net_files
            &&& sum_of(histogram_of(added, removed, b).bytes) == delta.net_bytes
        }),
{
    bins_hold_every_file(added, b);
    bins_hold_every_file(removed, b);
    lemma_sums_of_bins(added, removed, b, b.len());
    let h = histogram_of(added, removed, b);
    assert(h.counts.take(b.len() as int) =~= h.counts);
    assert(h.bytes.take(b.len() as int) =~= h.bytes);
}

/// The first bins of a change add up to what the added files have in them, less what the removed files
/// have.
proof fn lemma_sums_of_bins(added: Seq<i64>, removed: Seq<i64>, b: Seq<i64>, n: nat)
    requires
        sizes_fault(added, removed, Some(b)) is None,
        n <= b.len(),
    ensures
        sum_of(histogram_of(added, removed, b).counts.take(n as int)) == counts_of_bins(added, b, n)
            - counts_of_bins(removed, b, n),
        sum_of(histogram_of(added, removed, b).bytes.take(n as int)) == bytes_of_bins(added, b, n)
            - bytes_of_bins(removed, b, n),
    decreases n,
{
    let h = histogram_of(added, removed, b);
    if n > 0 {
        lemma_sums_of_bins(added, removed, b, (n - 1) as nat);
        lemma_bin_within(added, b, n - 1, 0);
        lemma_bin_within(removed, b, n - 1, 0);
        assert(h.counts.take(n as int).drop_last() =~= h.counts.take(n - 1));
        assert(h.bytes.take(n as int).drop_last() =~= h.bytes.take(n - 1));
        assert(h.counts.take(n as int).last() == h.counts[n - 1]);
        assert(h.bytes.take(n as int).last() == h.bytes[n - 1]);
    }
}

/// The sum of sizes where it fits.
fn checked_sum(sizes: &Vec<i64>) -> (r: Option<i64>)
    ensures
        r matches Some(n) ==> n == sum_of(sizes@),
        r is None <==> !fits(sum_of(sizes@)),
{
    let n: usize = sizes.len();
    let mut sum: i128 = 0;
    let mut i: usize = 0;
    assert(sizes@.take(0) =~= Seq::<i64>::empty());
    while i < n
        invariant
            i <= n == sizes@.len(),
            sum == sum_of(sizes@.take(i as int)),
            -0x8000_0000_0000_0000 * i <= sum <= 0x8000_0000_0000_0000 * i,
        decreases n - i,
    {
        assert(sizes@.take(i + 1).drop_last() =~= sizes@.take(i as int));
        assert(sizes@.take(i + 1).last() == sizes@[i as int]);
        sum = sum + sizes[i] as i128;
        i += 1;
    }
    assert(sizes@.take(i as int) =~= sizes@);
    if sum < i64::MIN as i128 || sum > i64::MAX as i128 {
        None
    } else {
        Some(sum as i64)
    }
}

/// Whether no size is negative.
fn has_no_negative(sizes: &Vec<i64>) -> (r: bool)
    ensures
        r == none_negative(sizes@),
{
    let mut i: usize = 0;
    while i < sizes.len()
        invariant
            i <= sizes@.len(),
            forall|j: int| 0 <= j < i ==> #[trigger] sizes@[j] >= 0,
        decreases sizes.len() - i,
    {
        if sizes[i] < 0 {
            return false;
        }
        i += 1;
    }
    true
}

/// Whether boundaries ascend from zero.
fn are_bins_valid(b: &Vec<i64>) -> (r: bool)
    ensures
        r == bins_valid(b@),
{
    if b.len() == 0 || b[0] != 0 {
        return false;
    }
    let mut i: usize = 1;
    while i < b.len()
        invariant
            1 <= i <= b@.len(),
            b@[0] == 0,
            forall|j: int, k: int| 0 <= j < k < i ==> b@[j] < b@[k],
        decreases b.len() - i,
    {
        if b[i - 1] >= b[i] {
            assert(!(b@[i - 1] < b@[i as int]));
            return false;
        }
        assert forall|j: int, k: int| 0 <= j < k < i + 1 implies b@[j] < b@[k] by {
            if k == i && j < i - 1 {
                assert(b@[j] < b@[i - 1]);
            }
        }
        i += 1;
    }
    true
}

/// How many sizes fall into a bin, and their sum.
fn bin_totals(sizes: &Vec<i64>, b: &Vec<i64>, bin: usize) -> (r: (i64, i64))
    requires
        bin < b@.len(),
        none_negative(sizes@),
        sizes@.len() <= i64::MAX,
        fits(sum_of(sizes@)),
    ensures
        r.0 == bin_count(sizes@, b@, bin as int),
        r.1 == bin_bytes(sizes@, b@, bin as int),
        r.0 >= 0 && r.1 >= 0,
{
    let ghost s = sizes@;
    let mut count: i64 = 0;
    let mut bytes: i64 = 0;
    let mut i: usize = 0;
    assert(s.take(0) =~= Seq::<i64>::empty());
    while i < sizes.len()
        invariant
            i <= s.len(),
            s == sizes@,
            bin < b@.len(),
            none_negative(s),
            s.len() <= i64::MAX,
            fits(sum_of(s)),
            count == bin_count(s.take(i as int), b@, bin as int),
            bytes == bin_bytes(s.take(i as int), b@, bin as int),
            count >= 0 && bytes >= 0,
        decreases sizes.len() - i,
    {
        let size: i64 = sizes[i];
        assert(s.take(i + 1).drop_last() =~= s.take(i as int));
        assert(s.take(i + 1).last() == size);
        proof {
            lemma_bin_within(s, b@, bin as int, i + 1);
        }
        if b[bin] <= size && (bin == b.len() - 1 || size < b[bin + 1]) {
            count = count + 1;
            bytes = bytes + size;
        }
        i += 1;
    }
    assert(s.take(i as int) =~= s);
    (count, bytes)
}

/// The histogram of the added files, less that of the removed ones.
fn net_histogram(added: &Vec<i64>, removed: &Vec<i64>, boundaries: &Vec<i64>) -> (r:
    FileSizeHistogram)
    requires
        none_negative(added@),
        none_negative(removed@),
        sums_fit(added@, removed@),
    ensures
        r@ == histogram_of(added@, removed@, boundaries@),
{
    let ghost want = histogram_of(added@, removed@, boundaries@);
    let mut sorted_bin_boundaries: Vec<i64> = Vec::new();
    let mut file_counts: Vec<i64> = Vec::new();
    let mut total_bytes: Vec<i64> = Vec::new();
    let mut i: usize = 0;
    while i < boundaries.len()
        invariant
            i <= boundaries@.len(),
            none_negative(added@),
            none_negative(removed@),
            sums_fit(added@, removed@),
            want == histogram_of(added@, removed@, boundaries@),
            sorted_bin_boundaries@ == boundaries@.take(i as int),
            file_counts@ == want.counts.take(i as int),
            total_bytes@ == want.bytes.take(i as int),
        decreases boundaries.len() - i,
    {
        let (more, more_bytes): (i64, i64) = bin_totals(added, boundaries, i);
        let (less, less_bytes): (i64, i64) = bin_totals(removed, boundaries, i);
        sorted_bin_boundaries.push(boundaries[i]);
        file_counts.push(more - less);
        total_bytes.push(more_bytes - less_bytes);
        assert(boundaries@.take(i + 1) =~= boundaries@.take(i as int).push(boundaries@[i as int]));
        assert(want.counts.take(i + 1) =~= want.counts.take(i as int).push(want.counts[i as int]));
        assert(want.bytes.take(i + 1) =~= want.bytes.take(i as int).push(want.bytes[i as int]));
        i += 1;
    }
    assert(boundaries@.take(i as int) =~= boundaries@);
    assert(want.counts.take(i as int) =~= want.counts);
    assert(want.bytes.take(i as int) =~= want.bytes);
    FileSizeHistogram { sorted_bin_boundaries, file_counts, total_bytes }
}

impl FileStatsDelta {
    /// How many files and bytes are added, less those that are removed, given the sizes of the files
    /// and, where the table has a histogram, its bins. Fails where the bins do not ascend from zero,
    /// where a file has no bin, and where a sum does not fit.
    pub fn try_compute(
        added: &Vec<i64>,
        removed: &Vec<i64>,
        bin_boundaries: Option<&Vec<i64>>,
    ) -> (r: DeltaResult<FileStatsDelta>)
        ensures
            sizes_fault(added@, removed@, opt_boundaries(bin_boundaries)) matches Some(e)
                ==> error::failure(r) == Some(e),
            sizes_fault(added@, removed@, opt_boundaries(bin_boundaries)) is None ==> (r matches Ok(d)
                && d@ == sizes_delta(added@, removed@, opt_boundaries(bin_boundaries))),
    {
        if let Some(b) = bin_boundaries {
            if !are_bins_valid(b) {
                return Err(
                    Error::generic("The bins of the file size histogram do not ascend from 0"),
                );
            }
            if !has_no_negative(added) || !has_no_negative(removed) {
                return Err(Error::generic("The size of a file is negative"));
            }
        }
        let few = added.len() as u64 <= i64::MAX as u64 && removed.len() as u64 <= i64::MAX as u64;
        if let (true, Some(more), Some(less)) = (few, checked_sum(added), checked_sum(removed)) {
            if let Some(net_bytes) = more.checked_sub(less) {
                return Ok(
                    FileStatsDelta {
                        net_files: added.len() as i64 - removed.len() as i64,
                        net_bytes,
                        net_histogram: match bin_boundaries {
                            Some(b) => Some(net_histogram(added, removed, b)),
                            None => None,
                        },
                    },
                );
            }
        }
        Err(Error::generic("The sizes of the files of the commit do not fit"))
    }
}

} // verus!
