//! Matching new deletion vectors with the files of a scan.
use vstd::prelude::*;

use crate::action_schemas;
use crate::actions::{self, DeletionVectorDescriptor, DvView};
use crate::error::{self, DeltaResult, Error, ErrorView};
use crate::scalars::{self, Scalar, ScalarView, StructData};
use crate::schema::{DataType, DataTypeView};
use crate::string_map::StringMap;
use crate::text::{self, contains_text, text2, text4, unsigned_text};

verus! {

/// A batch of rows of a scan: the rows themselves, the path that each of them holds, if any, and
/// which of them are selected. Rows after the end of the selection are selected.
#[derive(Debug, PartialEq, Eq)]
pub struct ScanBatch<D> {
    pub data: D,
    pub paths: Vec<Option<String>>,
    pub selection_vector: Vec<bool>,
}

/// A batch of rows of a scan with a new deletion vector, or null, for each row.
#[derive(Debug, PartialEq, Eq)]
pub struct DvMatchedBatch<D> {
    pub data: D,
    pub new_dv_entries: Vec<Scalar>,
    /// Selects the rows that get a new deletion vector.
    pub selection_vector: Vec<bool>,
}

/// The mathematical value of a [`ScanBatch`].
pub struct ScanBatchView<D> {
    pub data: D,
    pub paths: Seq<Option<Seq<char>>>,
    pub selection: Seq<bool>,
}

/// The mathematical value of a [`DvMatchedBatch`].
pub struct DvBatchView<D> {
    pub data: D,
    pub entries: Seq<ScalarView>,
    pub selection: Seq<bool>,
}

impl<D> View for ScanBatch<D> {
    type V = ScanBatchView<D>;

    open spec fn view(&self) -> ScanBatchView<D> {
        ScanBatchView {
            data: self.data,
            paths: Seq::new(self.paths@.len(), |i: int| text::opt_text(self.paths@[i])),
            selection: self.selection_vector@,
        }
    }
}

impl<D> View for DvMatchedBatch<D> {
    type V = DvBatchView<D>;

    open spec fn view(&self) -> DvBatchView<D> {
        DvBatchView {
            data: self.data,
            entries: scalars::scalars_view(self.new_dv_entries@),
            selection: self.selection_vector@,
        }
    }
}

/// The values of a list of matched batches.
pub open spec fn dv_batches_view<D>(s: Seq<DvMatchedBatch<D>>) -> Seq<DvBatchView<D>> {
    Seq::new(s.len(), |i: int| s[i]@)
}

/// The values of a list of scan batches.
pub open spec fn scan_batches_view<D>(s: Seq<ScanBatch<D>>) -> Seq<ScanBatchView<D>> {
    Seq::new(s.len(), |i: int| s[i]@)
}

/// Whether a row of a batch is selected.
pub open spec fn row_selected(selection: Seq<bool>, i: int) -> bool {
    i >= selection.len() || selection[i]
}

/// Whether a row of a batch gets a new deletion vector: it is selected, and there is a new deletion
/// vector for its path.
pub open spec fn row_matches<D>(b: ScanBatchView<D>, updates: Map<Seq<char>, DvView>, i: int) -> bool {
    row_selected(b.selection, i) && (b.paths[i] matches Some(p) && updates.dom().contains(p))
}

/// The value of a deletion vector.
pub open spec fn dv_scalar(d: DvView) -> ScalarView {
    ScalarView::Struct(
        action_schemas::deletion_vector_fields(),
        seq![
            ScalarView::String(actions::storage_type_text(d.storage_type)),
            ScalarView::String(d.path_or_inline_dv),
            scalars::opt_integer_scalar(d.offset),
            ScalarView::Integer(d.size_in_bytes),
            ScalarView::Long(d.cardinality),
        ],
    )
}

/// The value of a missing deletion vector.
pub open spec fn null_dv() -> ScalarView {
    ScalarView::Null(DataTypeView::Struct(action_schemas::deletion_vector_fields()))
}

/// The new deletion vectors of the rows of a batch.
pub open spec fn dv_entries<D>(b: ScanBatchView<D>, updates: Map<Seq<char>, DvView>) -> Seq<
    ScalarView,
> {
    Seq::new(
        b.paths.len(),
        |i: int|
            if row_matches(b, updates, i) {
                dv_scalar(updates[b.paths[i]->0])
            } else {
                null_dv()
            },
    )
}

/// The selection of those rows of a batch that get a new deletion vector. It covers every row: one
/// after the end of the old selection was selected, and is not any more unless it matches.
pub open spec fn dv_selection<D>(b: ScanBatchView<D>, updates: Map<Seq<char>, DvView>) -> Seq<bool> {
    Seq::new(b.paths.len(), |i: int| row_matches(b, updates, i))
}

/// A batch with the new deletion vectors of its rows.
pub open spec fn matched_batch<D>(b: ScanBatchView<D>, updates: Map<Seq<char>, DvView>) -> DvBatchView<
    D,
> {
    DvBatchView { data: b.data, entries: dv_entries(b, updates), selection: dv_selection(b, updates) }
}

/// Batches with the new deletion vectors of their rows.
pub open spec fn matched_batches<D>(
    s: Seq<ScanBatchView<D>>,
    updates: Map<Seq<char>, DvView>,
) -> Seq<DvBatchView<D>> {
    Seq::new(s.len(), |i: int| matched_batch(s[i], updates))
}

/// The paths of those among the first `n` rows of a batch that get a new deletion vector.
pub open spec fn batch_matched_paths<D>(
    b: ScanBatchView<D>,
    updates: Map<Seq<char>, DvView>,
    n: nat,
) -> Seq<Seq<char>>
    decreases n,
{
    if n == 0 {
        Seq::empty()
    } else {
        let front = batch_matched_paths(b, updates, (n - 1) as nat);
        if row_matches(b, updates, n - 1) {
            front.push(b.paths[n - 1]->0)
        } else {
            front
        }
    }
}

/// The paths of the rows of all batches that get a new deletion vector, in order.
pub open spec fn matched_paths<D>(
    s: Seq<ScanBatchView<D>>,
    updates: Map<Seq<char>, DvView>,
) -> Seq<Seq<char>>
    decreases s.len(),
{
    if s.len() == 0 {
        Seq::empty()
    } else {
        matched_paths(s.drop_last(), updates) + batch_matched_paths(
            s.last(),
            updates,
            s.last().paths.len(),
        )
    }
}

/// The value of a missing deletion vector.
fn null_dv_scalar() -> (r: Scalar)
    ensures
        r@ == null_dv(),
{
    Scalar::Null(DataType::struct_of(DeletionVectorDescriptor::to_schema()))
}

impl DeletionVectorDescriptor {
    /// The value of the deletion vector: a struct with a value for each field.
    pub fn to_scalar(&self) -> (r: Scalar)
        ensures
            r@ == dv_scalar(self@),
    {
        let values = vec![
            Scalar::String(self.storage_type.letter().to_owned()),
            Scalar::String(self.path_or_inline_dv.clone()),
            Scalar::opt_integer(self.offset),
            Scalar::Integer(self.size_in_bytes),
            Scalar::Long(self.cardinality),
        ];
        assert(scalars::scalars_view(values@) =~= seq![
            ScalarView::String(actions::storage_type_text(self@.storage_type)),
            ScalarView::String(self@.path_or_inline_dv),
            scalars::opt_integer_scalar(self@.offset),
            ScalarView::Integer(self@.size_in_bytes),
            ScalarView::Long(self@.cardinality),
        ]);
        Scalar::Struct(
            StructData { fields: DeletionVectorDescriptor::to_schema().fields, values },
        )
    }
}

/// Matches the paths of scan rows with new deletion vectors.
pub struct DvMatchVisitor<'a> {
    /// The new deletion vectors by path.
    pub dv_updates: &'a StringMap<DeletionVectorDescriptor>,
    /// The new deletion vector, or null, of each visited row.
    pub new_dv_entries: Vec<Scalar>,
    /// The positions of the rows that get a new deletion vector, in ascending order.
    pub matched_file_indexes: Vec<usize>,
}

/// Whether positions are those of the rows of a batch that get a new deletion vector, as far as the
/// first `n` rows are concerned.
pub open spec fn indexes_of_matches<D>(
    indexes: Seq<usize>,
    b: ScanBatchView<D>,
    updates: Map<Seq<char>, DvView>,
    n: int,
) -> bool {
    &&& forall|k: int, l: int| 0 <= k < l < indexes.len() ==> indexes[k] < indexes[l]
    &&& forall|k: int|
        0 <= k < indexes.len() ==> (#[trigger] indexes[k]) < n && row_matches(
            b,
            updates,
            indexes[k] as int,
        )
    &&& forall|i: int|
        0 <= i < n && #[trigger] row_matches(b, updates, i) ==> exists|k: int|
            0 <= k < indexes.len() && indexes[k] == i
}

impl<'a> DvMatchVisitor<'a> {
    pub fn new(dv_updates: &'a StringMap<DeletionVectorDescriptor>) -> (r: DvMatchVisitor<'a>)
        ensures
            r.dv_updates@ == dv_updates@,
            r.new_dv_entries@.len() == 0,
            r.matched_file_indexes@.len() == 0,
    {
        DvMatchVisitor { dv_updates, new_dv_entries: Vec::new(), matched_file_indexes: Vec::new() }
    }

    /// Looks up the path of each selected row of a batch, and notes the deletion vector and the
    /// position where there is one.
    pub fn visit_filtered<D>(&mut self, batch: &ScanBatch<D>)
        requires
            old(self).new_dv_entries@.len() == 0,
            old(self).matched_file_indexes@.len() == 0,
        ensures
            final(self).dv_updates@ == old(self).dv_updates@,
            scalars::scalars_view(final(self).new_dv_entries@) == dv_entries(
                batch@,
                old(self).dv_updates@,
            ),
            indexes_of_matches(
                final(self).matched_file_indexes@,
                batch@,
                old(self).dv_updates@,
                batch@.paths.len() as int,
            ),
    {
        let ghost b = batch@;
        let ghost u = self.dv_updates@;
        let mut i: usize = 0;
        while i < batch.paths.len()
            invariant
                i <= batch.paths@.len(),
                b == batch@,
                u == self.dv_updates@,
                self.new_dv_entries@.len() == i,
                forall|j: int|
                    0 <= j < i ==> scalars::scalar_view(#[trigger] self.new_dv_entries@[j]) == dv_entries(
                        b,
                        u,
                    )[j],
                indexes_of_matches(self.matched_file_indexes@, b, u, i as int),
            decreases batch.paths.len() - i,
        {
            let ghost before = self.matched_file_indexes@;
            assert(b.paths[i as int] == text::opt_text(batch.paths@[i as int]));
            let selected = i >= batch.selection_vector.len() || batch.selection_vector[i];
            let found: Option<&DeletionVectorDescriptor> = if selected {
                match &batch.paths[i] {
                    Some(path) => self.dv_updates.get(path.as_str()),
                    None => None,
                }
            } else {
                None
            };
            assert(found is Some <==> row_matches(b, u, i as int));
            match found {
                Some(d) => {
                    let entry = d.to_scalar();
                    self.new_dv_entries.push(entry);
                    self.matched_file_indexes.push(i);
                    proof {
                        let after = self.matched_file_indexes@;
                        assert forall|j: int| 0 <= j < i + 1 && #[trigger] row_matches(
                            b,
                            u,
                            j,
                        ) implies exists|k: int| 0 <= k < after.len() && after[k] == j by {
                            if j < i {
                                let k = choose|k: int| 0 <= k < before.len() && before[k] == j;
                                assert(after[k] == j);
                            } else {
                                assert(after[before.len() as int] == j);
                            }
                        }
                    }
                },
                None => {
                    self.new_dv_entries.push(null_dv_scalar());
                },
            }
            i += 1;
        }
        assert(scalars::scalars_view(self.new_dv_entries@) =~= dv_entries(b, u));
    }
}

/// Selects exactly the rows at the given positions.
fn keep_matched<D>(
    rows: usize,
    indexes: &Vec<usize>,
    Ghost(b): Ghost<ScanBatchView<D>>,
    Ghost(updates): Ghost<Map<Seq<char>, DvView>>,
) -> (selection: Vec<bool>)
    requires
        rows == b.paths.len(),
        indexes_of_matches(indexes@, b, updates, rows as int),
    ensures
        selection@ == dv_selection(b, updates),
{
    let ghost want = dv_selection(b, updates);
    let mut selection: Vec<bool> = Vec::new();
    let mut current: usize = 0;
    let mut i: usize = 0;
    while i < rows
        invariant
            i <= rows == b.paths.len(),
            want == dv_selection(b, updates),
            indexes_of_matches(indexes@, b, updates, rows as int),
            current <= indexes@.len(),
            forall|k: int| 0 <= k < current ==> (#[trigger] indexes@[k]) < i,
            forall|k: int| current <= k < indexes@.len() ==> (#[trigger] indexes@[k]) >= i,
            selection@ == want.take(i as int),
        decreases rows - i,
    {
        let ghost before = selection@;
        let matched = current < indexes.len() && indexes[current] == i;
        if matched {
            assert(row_matches(b, updates, indexes@[current as int] as int));
            current += 1;
        } else {
            assert(!row_matches(b, updates, i as int)) by {
                if row_matches(b, updates, i as int) {
                    let k = choose|k: int| 0 <= k < indexes@.len() && indexes@[k] == i;
                    if k > current {
                        assert(indexes@[current as int] < indexes@[k]);
                    }
                }
            }
        }
        selection.push(matched);
        assert(want.take(i + 1) =~= before.push(want[i as int]));
        i += 1;
    }
    assert(want.take(i as int) =~= want);
    selection
}

/// Gives the rows of a batch their new deletion vectors, and appends their paths to a list.
pub fn match_batch<D>(
    batch: ScanBatch<D>,
    updates: &StringMap<DeletionVectorDescriptor>,
    paths: &mut Vec<String>,
) -> (r: DvMatchedBatch<D>)
    ensures
        r@ == matched_batch(batch@, updates@),
        text::texts(final(paths)@) == text::texts(old(paths)@) + batch_matched_paths(
            batch@,
            updates@,
            batch@.paths.len(),
        ),
{
    let ghost b = batch@;
    let ghost u = updates@;
    let ghost start = text::texts(paths@);
    let mut visitor = DvMatchVisitor::new(updates);
    visitor.visit_filtered(&batch);
    let rows: usize = batch.paths.len();
    let selection_vector = keep_matched::<D>(
        rows,
        &visitor.matched_file_indexes,
        Ghost(b),
        Ghost(u),
    );
    let mut i: usize = 0;
    assert(text::texts(paths@) =~= start + batch_matched_paths(b, u, 0));
    while i < rows
        invariant
            i <= rows == batch.paths@.len(),
            b == batch@,
            selection_vector@ == dv_selection(b, u),
            text::texts(paths@) == start + batch_matched_paths(b, u, i as nat),
        decreases rows - i,
    {
        let ghost before = text::texts(paths@);
        assert(b.paths[i as int] == text::opt_text(batch.paths@[i as int]));
        assert(selection_vector@[i as int] == row_matches(b, u, i as int));
        if selection_vector[i] {
            if let Some(path) = &batch.paths[i] {
                paths.push(path.clone());
                assert(text::texts(paths@) =~= before.push(path@));
            }
        }
        assert(text::texts(paths@) =~= start + batch_matched_paths(b, u, (i + 1) as nat));
        i += 1;
    }
    DvMatchedBatch { data: batch.data, new_dv_entries: visitor.new_dv_entries, selection_vector }
}

/// Gives the rows of batches their new deletion vectors and appends the batches to a list. Returns
/// the paths of those rows.
pub fn match_batches<D>(
    batches: Vec<ScanBatch<D>>,
    updates: &StringMap<DeletionVectorDescriptor>,
    out: &mut Vec<DvMatchedBatch<D>>,
) -> (r: Vec<String>)
    ensures
        dv_batches_view(final(out)@) == dv_batches_view(old(out)@) + matched_batches(
            scan_batches_view(batches@),
            updates@,
        ),
        text::texts(r@) == matched_paths(scan_batches_view(batches@), updates@),
{
    let ghost s = scan_batches_view(batches@);
    let ghost all = batches@;
    let ghost start = dv_batches_view(out@);
    let ghost u = updates@;
    let mut paths: Vec<String> = Vec::new();
    let n: usize = batches.len();
    assert(s.take(0) =~= Seq::<ScanBatchView<D>>::empty());
    assert(start + matched_batches(s.take(0), u) =~= start);
    assert(text::texts(paths@) =~= Seq::<Seq<char>>::empty());
    for batch in it: batches
        invariant
            it.seq() == all,
            all.len() == n,
            s == scan_batches_view(all),
            u == updates@,
            dv_batches_view(out@) == start + matched_batches(s.take(it.index()), u),
            text::texts(paths@) == matched_paths(s.take(it.index()), u),
    {
        let ghost i = it.index();
        let ghost before = dv_batches_view(out@);
        assert(batch == all[i]);
        assert(s[i] == batch@);
        assert(s.take(i + 1).drop_last() =~= s.take(i));
        assert(s.take(i + 1).last() == s[i]);
        let matched = match_batch(batch, updates, &mut paths);
        let ghost m = matched@;
        out.push(matched);
        assert(dv_batches_view(out@) =~= before.push(m));
        assert(matched_batches(s.take(i + 1), u) =~= matched_batches(s.take(i), u).push(m));
        assert(dv_batches_view(out@) =~= start + matched_batches(s.take(i + 1), u));
    }
    assert(s.take(n as int) =~= s);
    paths
}

/// The error where there are not as many rows as new deletion vectors.
pub open spec fn dv_count_error(matched: nat, given: nat) -> ErrorView {
    ErrorView::Generic(
        "Number of matched DV files does not match number of new DV descriptors: "@ + text::decimal(
            matched,
        ) + " != "@ + text::decimal(given),
    )
}

/// The first of the given paths that is not among the paths that were matched.
pub open spec fn first_unmatched(keys: Seq<Seq<char>>, matched: Seq<Seq<char>>) -> Option<Seq<char>>
    decreases keys.len(),
{
    if keys.len() == 0 {
        None
    } else if first_unmatched(keys.drop_last(), matched) is Some {
        first_unmatched(keys.drop_last(), matched)
    } else if matched.contains(keys.last()) {
        None
    } else {
        Some(keys.last())
    }
}

/// There is no unmatched path exactly where every path was matched, and the first unmatched one of
/// some paths is that of all of them.
pub proof fn lemma_first_unmatched(keys: Seq<Seq<char>>, matched: Seq<Seq<char>>, n: int)
    requires
        0 <= n <= keys.len(),
    ensures
        first_unmatched(keys, matched) is None <==> forall|i: int|
            0 <= i < keys.len() ==> matched.contains(#[trigger] keys[i]),
        first_unmatched(keys.take(n), matched) is Some ==> first_unmatched(keys, matched)
            == first_unmatched(keys.take(n), matched),
    decreases keys.len(),
{
    if keys.len() > 0 {
        let front = keys.drop_last();
        let last = keys.len() - 1;
        if n == keys.len() {
            assert(keys.take(n) =~= keys);
            lemma_first_unmatched(front, matched, 0);
        } else {
            assert(front.take(n) =~= keys.take(n));
            lemma_first_unmatched(front, matched, n);
        }
        assert forall|i: int| 0 <= i < front.len() implies front[i] == keys[i] by {}
        if first_unmatched(keys, matched) is None {
            assert forall|i: int| 0 <= i < keys.len() implies matched.contains(#[trigger] keys[i]) by {
                if i < last {
                    assert(matched.contains(front[i]));
                }
            }
        }
        if forall|i: int| 0 <= i < keys.len() ==> matched.contains(#[trigger] keys[i]) {
            assert(matched.contains(keys[last]));
            assert forall|i: int| 0 <= i < front.len() implies matched.contains(
                #[trigger] front[i],
            ) by {
                assert(matched.contains(keys[i]));
            }
        }
    } else {
        assert(keys.take(n) =~= keys);
    }
}

/// The error for a new deletion vector without a file.
pub open spec fn dv_missing_error(path: Seq<char>) -> ErrorView {
    ErrorView::Generic("No file matches the new DV descriptor for path: "@ + path)
}

/// What is wrong with the paths that were matched: there are not as many as new deletion vectors, or
/// one of these has no file.
pub open spec fn dv_match_fault(keys: Seq<Seq<char>>, matched: Seq<Seq<char>>) -> Option<ErrorView> {
    if matched.len() != keys.len() {
        Some(dv_count_error(matched.len(), keys.len()))
    } else {
        match first_unmatched(keys, matched) {
            Some(path) => Some(dv_missing_error(path)),
            None => None,
        }
    }
}

/// Where nothing is wrong, every new deletion vector goes to exactly one row: the paths of the rows
/// that get one are the given paths, each once.
pub proof fn new_vectors_go_to_one_file_each(keys: Seq<Seq<char>>, matched: Seq<Seq<char>>)
    requires
        keys.no_duplicates(),
        dv_match_fault(keys, matched) is None,
    ensures
        matched.no_duplicates(),
        forall|p: Seq<char>| matched.contains(p) <==> keys.contains(p),
{
    lemma_first_unmatched(keys, matched, 0);
    keys.unique_seq_to_set();
    matched.lemma_cardinality_of_set();
    assert(keys.to_set().subset_of(matched.to_set())) by {
        assert forall|p: Seq<char>| keys.to_set().contains(p) implies #[trigger] matched.to_set().contains(
            p,
        ) by {
            let i = choose|i: int| 0 <= i < keys.len() && keys[i] == p;
            assert(matched.contains(keys[i]));
        }
    }
    vstd::set_lib::lemma_len_subset(keys.to_set(), matched.to_set());
    vstd::set_lib::lemma_subset_equality(keys.to_set(), matched.to_set());
    matched.lemma_no_dup_set_cardinality();
    assert forall|p: Seq<char>| matched.contains(p) <==> keys.contains(p) by {
        assert(matched.to_set().contains(p) == keys.to_set().contains(p));
    }
}

/// Checks that there are as many matched paths as new deletion vectors, and that each of these has
/// a file.
pub fn check_matched(updates: &StringMap<DeletionVectorDescriptor>, matched: &Vec<String>) -> (r:
    DeltaResult<()>)
    ensures
        error::failure(r) == dv_match_fault(updates.keys(), text::texts(matched@)),
{
    let ghost keys = updates.keys();
    let ghost m = text::texts(matched@);
    let given: usize = updates.len();
    if matched.len() != given {
        let have = unsigned_text(matched.len() as u64);
        let want = unsigned_text(given as u64);
        return Err(
            Error::Generic(
                text4(
                    "Number of matched DV files does not match number of new DV descriptors: ",
                    have.as_str(),
                    " != ",
                    want.as_str(),
                ),
            ),
        );
    }
    let mut i: usize = 0;
    assert(keys.take(0) =~= Seq::<Seq<char>>::empty());
    while i < given
        invariant
            i <= given,
            given == keys.len() == m.len(),
            keys == updates.keys(),
            m == text::texts(matched@),
            first_unmatched(keys.take(i as int), m) is None,
        decreases given - i,
    {
        assert(keys.take(i + 1).drop_last() =~= keys.take(i as int));
        assert(keys.take(i + 1).last() == keys[i as int]);
        let path = updates.key_at(i);
        if !contains_text(matched, path.as_str()) {
            proof {
                lemma_first_unmatched(keys, m, i + 1);
            }
            return Err(
                Error::Generic(
                    text2("No file matches the new DV descriptor for path: ", path.as_str()),
                ),
            );
        }
        i += 1;
    }
    assert(keys.take(i as int) =~= keys);
    Ok(())
}

} // verus!
