//! What holds of new deletion vectors.
use vstd::prelude::*;

use crate::actions::{self, DeletionVectorStorageType, DvView};
use crate::commit_path;
use crate::dv_update::{self, ScanBatch, ScanBatchView};
use crate::error::DeltaResult;
use crate::scalars::ScalarView;
use crate::schema::{self, PrimitiveType};
use crate::text;
use crate::update_table;

verus! {

/// Whether a value is a struct in which exactly one field has a name, and what that field holds is
/// the given value.
pub open spec fn reads_as(v: ScalarView, name: Seq<char>, x: ScalarView) -> bool {
    v matches ScalarView::Struct(fields, values) && fields.len() == values.len() && exists|k: int|
        {
            &&& 0 <= k < fields.len()
            &&& (#[trigger] fields[k]).name == name
            &&& values[k] == x
            &&& forall|j: int| 0 <= j < fields.len() && (#[trigger] fields[j]).name == name ==> j == k
        }
}

/// The names of the fields of a deletion vector differ.
proof fn lemma_dv_names_differ()
    ensures
        "storageType"@ != "pathOrInlineDv"@,
        "storageType"@ != "offset"@,
        "storageType"@ != "sizeInBytes"@,
        "storageType"@ != "cardinality"@,
        "pathOrInlineDv"@ != "offset"@,
        "pathOrInlineDv"@ != "sizeInBytes"@,
        "pathOrInlineDv"@ != "cardinality"@,
        "offset"@ != "sizeInBytes"@,
        "offset"@ != "cardinality"@,
        "sizeInBytes"@ != "cardinality"@,
{
    reveal_strlit("storageType");
    reveal_strlit("pathOrInlineDv");
    reveal_strlit("offset");
    reveal_strlit("sizeInBytes");
    reveal_strlit("cardinality");
    assert("storageType"@[1] == 't');
    assert("pathOrInlineDv"@[0] == 'p');
    assert("offset"@[0] == 'o');
    assert("sizeInBytes"@[0] == 's' && "sizeInBytes"@[1] == 'i');
    assert("cardinality"@[0] == 'c');
    assert("storageType"@[0] == 's');
}

/// The value of a deletion vector, read field by field under the names of the format, gives back the
/// vector: the letter of its storage type, the path or the inline bits, the offset or null, the size
/// and the number of deleted rows.
pub proof fn dv_values_read_back(d: DvView)
    ensures
        ({
            let v = dv_update::dv_scalar(d);
            &&& reads_as(
                v,
                "storageType"@,
                ScalarView::String(
                    match d.storage_type {
                        DeletionVectorStorageType::PersistedRelative => "u"@,
                        DeletionVectorStorageType::Inline => "i"@,
                        DeletionVectorStorageType::PersistedAbsolute => "p"@,
                    },
                ),
            )
            &&& reads_as(v, "pathOrInlineDv"@, ScalarView::String(d.path_or_inline_dv))
            &&& d.offset matches Some(n) ==> reads_as(v, "offset"@, ScalarView::Integer(n))
            &&& d.offset is None ==> reads_as(
                v,
                "offset"@,
                ScalarView::Null(schema::primitive(PrimitiveType::Integer)),
            )
            &&& reads_as(v, "sizeInBytes"@, ScalarView::Integer(d.size_in_bytes))
            &&& reads_as(v, "cardinality"@, ScalarView::Long(d.cardinality))
        }),
{
    lemma_dv_names_differ();
    if let ScalarView::Struct(fields, values) = dv_update::dv_scalar(d) {
        assert(fields[0].name == "storageType"@);
        assert(fields[1].name == "pathOrInlineDv"@);
        assert(fields[2].name == "offset"@);
        assert(fields[3].name == "sizeInBytes"@);
        assert(fields[4].name == "cardinality"@);
    }
}

/// The values of different deletion vectors differ.
pub proof fn dv_values_tell_vectors_apart(d: DvView, e: DvView)
    requires
        dv_update::dv_scalar(d) == dv_update::dv_scalar(e),
    ensures
        d == e,
{
    reveal_strlit("u");
    reveal_strlit("i");
    reveal_strlit("p");
    assert("u"@[0] == 'u' && "i"@[0] == 'i' && "p"@[0] == 'p');
    if let ScalarView::Struct(_, v) = dv_update::dv_scalar(d) {
        if let ScalarView::Struct(_, w) = dv_update::dv_scalar(e) {
            assert(v == w);
            assert(v[0] == w[0]);
            assert(v[1] == w[1]);
            assert(v[2] == w[2]);
            assert(v[3] == w[3]);
            assert(v[4] == w[4]);
        }
    }
}

/// Whether a row of a scan is one that gets a new deletion vector: the scan selected it, be it
/// explicitly or because the selection ends before it, and there is a new vector for its path.
pub open spec fn gets_vector<D>(
    b: ScanBatchView<D>,
    updates: Map<Seq<char>, DvView>,
    i: int,
) -> bool {
    &&& 0 <= i < b.paths.len()
    &&& i < b.selection.len() ==> b.selection[i]
    &&& b.paths[i] is Some
    &&& updates.dom().contains(b.paths[i]->0)
}

/// A batch of a scan keeps its rows. Exactly those rows are selected that the scan selected and for
/// whose path there is a new deletion vector; each of them holds the vector given for its own path,
/// and every other row holds null.
pub proof fn matched_rows_get_their_vectors<D>(
    b: ScanBatchView<D>,
    updates: Map<Seq<char>, DvView>,
)
    ensures
        ({
            let m = dv_update::matched_batch(b, updates);
            &&& m.data == b.data
            &&& m.entries.len() == b.paths.len()
            &&& m.selection.len() == b.paths.len()
            &&& forall|i: int|
                0 <= i < b.paths.len() ==> #[trigger] m.selection[i] == gets_vector(b, updates, i)
            &&& forall|i: int|
                0 <= i < b.paths.len() && gets_vector(b, updates, i) ==> reads_as(
                    #[trigger] m.entries[i],
                    "pathOrInlineDv"@,
                    ScalarView::String(updates[b.paths[i]->0].path_or_inline_dv),
                ) && reads_as(
                    m.entries[i],
                    "sizeInBytes"@,
                    ScalarView::Integer(updates[b.paths[i]->0].size_in_bytes),
                ) && reads_as(
                    m.entries[i],
                    "cardinality"@,
                    ScalarView::Long(updates[b.paths[i]->0].cardinality),
                ) && m.entries[i] == dv_update::dv_scalar(updates[b.paths[i]->0])
            &&& forall|i: int|
                0 <= i < b.paths.len() && !gets_vector(b, updates, i) ==> (
                #[trigger] m.entries[i]) is Null
        }),
{
    let m = dv_update::matched_batch(b, updates);
    assert forall|i: int| 0 <= i < b.paths.len() && gets_vector(b, updates, i) implies reads_as(
        #[trigger] m.entries[i],
        "pathOrInlineDv"@,
        ScalarView::String(updates[b.paths[i]->0].path_or_inline_dv),
    ) && reads_as(
        m.entries[i],
        "sizeInBytes"@,
        ScalarView::Integer(updates[b.paths[i]->0].size_in_bytes),
    ) && reads_as(
        m.entries[i],
        "cardinality"@,
        ScalarView::Long(updates[b.paths[i]->0].cardinality),
    ) && m.entries[i] == dv_update::dv_scalar(updates[b.paths[i]->0]) by {
        dv_values_read_back(updates[b.paths[i]->0]);
        assert(dv_update::row_matches(b, updates, i));
    }
}

/// Every batch of a scan is staged, in order, with the vectors of its own rows.
pub proof fn every_scanned_batch_is_staged<D>(
    s: Seq<ScanBatchView<D>>,
    updates: Map<Seq<char>, DvView>,
)
    ensures
        dv_update::matched_batches(s, updates).len() == s.len(),
        forall|k: int|
            0 <= k < s.len() ==> (#[trigger] dv_update::matched_batches(s, updates)[k]).data
                == s[k].data && dv_update::matched_batches(s, updates)[k]
                == dv_update::matched_batch(s[k], updates),
{
}

/// Where the path of a row stands among the paths of the rows that get a new deletion vector.
spec fn place_of<D>(
    s: Seq<ScanBatchView<D>>,
    updates: Map<Seq<char>, DvView>,
    b: int,
    i: int,
) -> int {
    (dv_update::matched_paths(s.take(b), updates).len() + dv_update::batch_matched_paths(
        s[b],
        updates,
        i as nat,
    ).len()) as int
}

/// Whether one of the first rows of a batch that get a new vector has a place.
spec fn batch_row_at<D>(
    b: ScanBatchView<D>,
    updates: Map<Seq<char>, DvView>,
    n: nat,
    k: int,
) -> bool {
    exists|i: int|
        0 <= i < n && gets_vector(b, updates, i) && #[trigger] dv_update::batch_matched_paths(
            b,
            updates,
            i as nat,
        ).len() == k
}

/// Whether a row that gets a new vector has a place.
spec fn row_at<D>(s: Seq<ScanBatchView<D>>, updates: Map<Seq<char>, DvView>, k: int) -> bool {
    exists|b: int, i: int|
        0 <= b < s.len() && gets_vector(s[b], updates, i) && #[trigger] place_of(s, updates, b, i)
            == k
}

/// The paths of the first rows of a batch that get a new vector: each such row has its place, later
/// rows later ones, and each path is that of such a row.
proof fn lemma_batch_places<D>(b: ScanBatchView<D>, updates: Map<Seq<char>, DvView>, n: nat)
    requires
        n <= b.paths.len(),
    ensures
        ({
            let m = dv_update::batch_matched_paths(b, updates, n);
            &&& forall|i: int|
                0 <= i < n && gets_vector(b, updates, i) ==> {
                    let k = (#[trigger] dv_update::batch_matched_paths(b, updates, i as nat)).len();
                    k < m.len() && m[k as int] == b.paths[i]->0
                }
            &&& forall|i: int, j: int|
                0 <= i < j < n && gets_vector(b, updates, i) ==> (
                #[trigger] dv_update::batch_matched_paths(b, updates, i as nat)).len() < (
                #[trigger] dv_update::batch_matched_paths(b, updates, j as nat)).len()
            &&& forall|i: int|
                0 <= i <= n ==> (#[trigger] dv_update::batch_matched_paths(b, updates, i as nat)).len()
                    <= m.len()
            &&& forall|k: int| 0 <= k < m.len() ==> #[trigger] batch_row_at(b, updates, n, k)
        }),
    decreases n,
{
    if n > 0 {
        let front = (n - 1) as nat;
        lemma_batch_places(b, updates, front);
        let before = dv_update::batch_matched_paths(b, updates, front);
        let m = dv_update::batch_matched_paths(b, updates, n);
        assert(dv_update::row_matches(b, updates, n - 1) == gets_vector(b, updates, n - 1));
        assert forall|i: int| 0 <= i < n && gets_vector(b, updates, i) implies ({
            let k = (#[trigger] dv_update::batch_matched_paths(b, updates, i as nat)).len();
            k < m.len() && m[k as int] == b.paths[i]->0
        }) by {
            if i < front {
                let k = dv_update::batch_matched_paths(b, updates, i as nat).len();
                assert(k < before.len() && before[k as int] == b.paths[i]->0);
            }
        }
        assert forall|i: int, j: int| 0 <= i < j < n && gets_vector(b, updates, i) implies (
        #[trigger] dv_update::batch_matched_paths(b, updates, i as nat)).len() < (
        #[trigger] dv_update::batch_matched_paths(b, updates, j as nat)).len() by {
            if j == front {
                let k = dv_update::batch_matched_paths(b, updates, i as nat).len();
                assert(k < before.len());
            }
        }
        assert forall|i: int| 0 <= i <= n implies (#[trigger] dv_update::batch_matched_paths(
            b,
            updates,
            i as nat,
        )).len() <= m.len() by {
            if i <= front {
                assert(dv_update::batch_matched_paths(b, updates, i as nat).len() <= before.len());
            }
        }
        assert forall|k: int| 0 <= k < m.len() implies #[trigger] batch_row_at(b, updates, n, k) by {
            if k < before.len() {
                assert(batch_row_at(b, updates, front, k));
                let i = choose|i: int|
                    0 <= i < front && gets_vector(b, updates, i) && #[trigger] dv_update::batch_matched_paths(b, updates, i as nat).len() == k;
                assert(dv_update::batch_matched_paths(b, updates, i as nat).len() == k);
            } else {
                assert(dv_update::batch_matched_paths(b, updates, (n - 1) as nat).len() == k);
            }
        }
    }
}

/// The paths of the rows that get a new vector: each such row has its place, and each path is that of
/// such a row.
proof fn lemma_places<D>(s: Seq<ScanBatchView<D>>, updates: Map<Seq<char>, DvView>)
    ensures
        ({
            let m = dv_update::matched_paths(s, updates);
            &&& forall|b: int, i: int|
                0 <= b < s.len() && gets_vector(s[b], updates, i) ==> 0 <= #[trigger] place_of(
                    s,
                    updates,
                    b,
                    i,
                ) < m.len() && m[place_of(s, updates, b, i)] == s[b].paths[i]->0
            &&& forall|k: int| 0 <= k < m.len() ==> #[trigger] row_at(s, updates, k)
        }),
    decreases s.len(),
{
    let m = dv_update::matched_paths(s, updates);
    if s.len() > 0 {
        let front = s.drop_last();
        let n = s.len() - 1;
        lemma_places(front, updates);
        let before = dv_update::matched_paths(front, updates);
        lemma_batch_places(s[n], updates, s[n].paths.len());
        let last = dv_update::batch_matched_paths(s[n], updates, s[n].paths.len());
        assert(m == before + last);
        assert(s.take(n) =~= front);
        assert forall|b: int, i: int| 0 <= b < s.len() && gets_vector(s[b], updates, i) implies 0
            <= #[trigger] place_of(s, updates, b, i) < m.len() && m[place_of(s, updates, b, i)]
            == s[b].paths[i]->0 by {
            if b < n {
                assert(front[b] == s[b]);
                assert(front.take(b) =~= s.take(b));
                assert(place_of(front, updates, b, i) == place_of(s, updates, b, i));
            } else {
                let k = dv_update::batch_matched_paths(s[n], updates, i as nat).len();
                assert(k < last.len() && last[k as int] == s[n].paths[i]->0);
            }
        }
        assert forall|k: int| 0 <= k < m.len() implies #[trigger] row_at(s, updates, k) by {
            if k < before.len() {
                assert(row_at(front, updates, k));
                let (b, i) = choose|b: int, i: int|
                    0 <= b < front.len() && gets_vector(front[b], updates, i) && #[trigger] place_of(
                        front,
                        updates,
                        b,
                        i,
                    ) == k;
                assert(front[b] == s[b]);
                assert(front.take(b) =~= s.take(b));
                assert(place_of(s, updates, b, i) == k);
            } else {
                let l = k - before.len();
                assert(batch_row_at(s[n], updates, s[n].paths.len(), l));
                let i = choose|i: int|
                    0 <= i < s[n].paths.len() && gets_vector(s[n], updates, i) && #[trigger] dv_update::batch_matched_paths(
                        s[n],
                        updates,
                        i as nat,
                    ).len() == l;
                assert(place_of(s, updates, n, i) == k);
            }
        }
    }
}

/// The row whose path stands at a place.
proof fn lemma_row_at<D>(s: Seq<ScanBatchView<D>>, updates: Map<Seq<char>, DvView>, k: int) -> (r: (
    int,
    int,
))
    requires
        0 <= k < dv_update::matched_paths(s, updates).len(),
    ensures
        0 <= r.0 < s.len(),
        gets_vector(s[r.0], updates, r.1),
        place_of(s, updates, r.0, r.1) == k,
        s[r.0].paths[r.1]->0 == dv_update::matched_paths(s, updates)[k],
{
    lemma_places(s, updates);
    assert(row_at(s, updates, k));
    choose|b: int, i: int|
        0 <= b < s.len() && gets_vector(s[b], updates, i) && #[trigger] place_of(s, updates, b, i)
            == k
}

/// Rows that get a new vector have places in their order.
proof fn lemma_places_grow<D>(
    s: Seq<ScanBatchView<D>>,
    updates: Map<Seq<char>, DvView>,
    b: int,
    i: int,
    c: int,
    j: int,
)
    requires
        0 <= b <= c < s.len(),
        b == c ==> i < j,
        gets_vector(s[b], updates, i),
        gets_vector(s[c], updates, j),
    ensures
        place_of(s, updates, b, i) < place_of(s, updates, c, j),
{
    if b == c {
        lemma_batch_places(s[b], updates, s[b].paths.len());
    } else {
        let front = s.take(c);
        lemma_places(front, updates);
        assert(front[b] == s[b]);
        assert(front.take(b) =~= s.take(b));
        assert(place_of(front, updates, b, i) == place_of(s, updates, b, i));
    }
}

/// Whether rows of a scan that get a new vector are all the same as a given one, as far as they have
/// its path.
pub open spec fn only_row_with_its_path<D>(
    s: Seq<ScanBatchView<D>>,
    updates: Map<Seq<char>, DvView>,
    b: int,
    i: int,
) -> bool {
    forall|c: int, j: int|
        0 <= c < s.len() && #[trigger] gets_vector(s[c], updates, j) && s[c].paths[j]
            == s[b].paths[i] ==> c == b && j == i
}

/// New deletion vectors are accepted exactly where each of them is for exactly one selected row of
/// the scan.
pub proof fn accepted_vectors_have_one_row_each<D>(
    s: Seq<ScanBatchView<D>>,
    updates: Map<Seq<char>, DvView>,
    keys: Seq<Seq<char>>,
)
    requires
        keys.no_duplicates(),
        forall|p: Seq<char>| keys.contains(p) <==> #[trigger] updates.dom().contains(p),
    ensures
        dv_update::dv_match_fault(keys, dv_update::matched_paths(s, updates)) is None <==> {
            &&& forall|b: int, i: int|
                0 <= b < s.len() && #[trigger] gets_vector(s[b], updates, i)
                    ==> only_row_with_its_path(s, updates, b, i)
            &&& forall|p: Seq<char>| #[trigger]
                updates.dom().contains(p) ==> exists|b: int, i: int|
                    0 <= b < s.len() && #[trigger] gets_vector(s[b], updates, i) && s[b].paths[i]
                        == Some(p)
        },
{
    let m = dv_update::matched_paths(s, updates);
    lemma_places(s, updates);
    if dv_update::dv_match_fault(keys, m) is None {
        dv_update::new_vectors_go_to_one_file_each(keys, m);
        assert forall|b: int, i: int| 0 <= b < s.len() && #[trigger] gets_vector(
            s[b],
            updates,
            i,
        ) implies only_row_with_its_path(s, updates, b, i) by {
            assert forall|c: int, j: int|
                0 <= c < s.len() && #[trigger] gets_vector(s[c], updates, j) && s[c].paths[j]
                    == s[b].paths[i] implies c == b && j == i by {
                let x = place_of(s, updates, b, i);
                let y = place_of(s, updates, c, j);
                assert(m[x] == m[y]);
                if b < c || (b == c && i < j) {
                    lemma_places_grow(s, updates, b, i, c, j);
                } else if c < b || (b == c && j < i) {
                    lemma_places_grow(s, updates, c, j, b, i);
                }
            }
        }
        assert forall|p: Seq<char>| #[trigger] updates.dom().contains(p) implies exists|b: int, i: int|
            0 <= b < s.len() && #[trigger] gets_vector(s[b], updates, i) && s[b].paths[i] == Some(p) by {
            assert(m.contains(p));
            let k = choose|k: int| 0 <= k < m.len() && m[k] == p;
            let (b, i) = lemma_row_at(s, updates, k);
            assert(m[place_of(s, updates, b, i)] == s[b].paths[i]->0);
        }
    }
    if (forall|b: int, i: int|
        0 <= b < s.len() && #[trigger] gets_vector(s[b], updates, i) ==> only_row_with_its_path(
            s,
            updates,
            b,
            i,
        )) && (forall|p: Seq<char>| #[trigger]
        updates.dom().contains(p) ==> exists|b: int, i: int|
            0 <= b < s.len() && #[trigger] gets_vector(s[b], updates, i) && s[b].paths[i] == Some(p)) {
        assert(m.no_duplicates()) by {
            assert forall|k: int, l: int| 0 <= k < m.len() && 0 <= l < m.len() && k != l implies m[k]
                != m[l] by {
                let (b, i) = lemma_row_at(s, updates, k);
                let (c, j) = lemma_row_at(s, updates, l);
                assert(m[place_of(s, updates, b, i)] == s[b].paths[i]->0);
                assert(m[place_of(s, updates, c, j)] == s[c].paths[j]->0);
                assert(only_row_with_its_path(s, updates, b, i));
                if m[k] == m[l] {
                    assert(gets_vector(s[c], updates, j));
                }
            }
        }
        assert forall|p: Seq<char>| #[trigger] keys.contains(p) implies m.contains(p) by {
            assert(updates.dom().contains(p));
            let (b, i) = choose|b: int, i: int|
                0 <= b < s.len() && #[trigger] gets_vector(s[b], updates, i) && s[b].paths[i] == Some(
                    p,
                );
            assert(m[place_of(s, updates, b, i)] == p);
        }
        assert forall|p: Seq<char>| #[trigger] m.contains(p) implies keys.contains(p) by {
            let k = choose|k: int| 0 <= k < m.len() && m[k] == p;
            let (b, i) = lemma_row_at(s, updates, k);
            assert(m[place_of(s, updates, b, i)] == s[b].paths[i]->0);
            assert(updates.dom().contains(p));
        }
        assert(m.to_set() =~= keys.to_set()) by {
            assert forall|p: Seq<char>| m.to_set().contains(p) == keys.to_set().contains(p) by {
                assert(m.to_set().contains(p) == m.contains(p));
                assert(keys.to_set().contains(p) == keys.contains(p));
            }
        }
        m.unique_seq_to_set();
        keys.unique_seq_to_set();
        dv_update::lemma_first_unmatched(keys, m, 0);
        assert forall|i: int| 0 <= i < keys.len() implies m.contains(#[trigger] keys[i]) by {
            assert(keys.contains(keys[i]));
        }
    }
}

/// The identifier of a deletion vector begins with the letter of its storage, which is followed by its
/// place; and among vectors of one storage and place it tells them apart by their offsets.
pub proof fn vectors_are_identified_by_their_offsets(d: DvView, e: DvView)
    requires
        d.storage_type == e.storage_type,
        d.path_or_inline_dv == e.path_or_inline_dv,
    ensures
        actions::dv_id(d) == actions::dv_id(e) <==> d.offset == e.offset,
        actions::dv_id(d).len() > d.path_or_inline_dv.len(),
        actions::dv_id(d)[0] == (match d.storage_type {
            DeletionVectorStorageType::PersistedRelative => 'u',
            DeletionVectorStorageType::Inline => 'i',
            DeletionVectorStorageType::PersistedAbsolute => 'p',
        }),
        actions::dv_id(d).subrange(1, 1 + d.path_or_inline_dv.len() as int) == d.path_or_inline_dv,
        d.offset is None ==> actions::dv_id(d).len() == 1 + d.path_or_inline_dv.len(),
        d.offset matches Some(n) ==> actions::dv_id(d).skip(1 + d.path_or_inline_dv.len() as int)
            == seq!['@'] + text::signed_decimal(n as int),
{
    reveal_strlit("u");
    reveal_strlit("i");
    reveal_strlit("p");
    reveal_strlit("@");
    let k = 1 + d.path_or_inline_dv.len() as int;
    if let Some(n) = d.offset {
        let x = seq!['@'] + text::signed_decimal(n as int);
        assert(actions::dv_id(d).skip(k) =~= x);
        assert(x.skip(1) =~= text::signed_decimal(n as int));
        commit_path::numbers_are_read_back(n as i64, 0);
    }
    if let Some(n) = e.offset {
        let x = seq!['@'] + text::signed_decimal(n as int);
        assert(actions::dv_id(e).skip(k) =~= x);
        assert(x.skip(1) =~= text::signed_decimal(n as int));
        commit_path::numbers_are_read_back(n as i64, 0);
    }
}

/// Whether each new deletion vector is for exactly one selected row of the batches of a scan.
pub open spec fn vectors_fit<D>(
    s: Seq<ScanBatchView<D>>,
    updates: Map<Seq<char>, DvView>,
) -> bool {
    &&& forall|b: int, i: int|
        0 <= b < s.len() && #[trigger] gets_vector(s[b], updates, i) ==> only_row_with_its_path(
            s,
            updates,
            b,
            i,
        )
    &&& forall|p: Seq<char>| #[trigger]
        updates.dom().contains(p) ==> exists|b: int, i: int|
            0 <= b < s.len() && #[trigger] gets_vector(s[b], updates, i) && s[b].paths[i] == Some(p)
}

/// The first error of a scan is the one that the scan ends with.
proof fn lemma_first_error<D>(items: Seq<DeltaResult<ScanBatch<D>>>, i: int)
    requires
        0 <= i < items.len(),
        items[i] is Err,
        forall|j: int| 0 <= j < i ==> (#[trigger] items[j]) is Ok,
    ensures
        update_table::scanned(items).1 == Some(items[i]->Err_0@),
    decreases items.len(),
{
    let front = items.drop_last();
    if i < front.len() {
        assert forall|j: int| 0 <= j < i implies (#[trigger] front[j]) is Ok by {
            assert(front[j] == items[j]);
        }
        lemma_first_error(front, i);
    } else {
        update_table::scans_are_used_up_to_their_first_error(front);
        assert forall|j: int| 0 <= j < front.len() implies (#[trigger] front[j]) is Ok by {
            assert(front[j] == items[j]);
        }
    }
}

/// Files get new deletion vectors exactly where the scan gives no error and each vector is for exactly
/// one selected row of it. Where the scan gives an error, its first one is the reason.
pub proof fn vectors_are_given_exactly_if_they_fit<D>(
    items: Seq<DeltaResult<ScanBatch<D>>>,
    batches: Seq<ScanBatchView<D>>,
    updates: Map<Seq<char>, DvView>,
    keys: Seq<Seq<char>>,
)
    requires
        keys.no_duplicates(),
        forall|p: Seq<char>| keys.contains(p) <==> #[trigger] updates.dom().contains(p),
    ensures
        (forall|i: int| 0 <= i < items.len() ==> (#[trigger] items[i]) is Ok) && batches.len()
            == items.len() && (forall|i: int|
            0 <= i < items.len() ==> (#[trigger] items[i])->Ok_0@ == batches[i]) ==> (
        update_table::dv_update_fault(items, updates, keys) is None <==> vectors_fit(
            batches,
            updates,
        )),
        forall|i: int|
            0 <= i < items.len() && (#[trigger] items[i]) is Err && (forall|j: int|
                0 <= j < i ==> (#[trigger] items[j]) is Ok) ==> update_table::dv_update_fault(
                items,
                updates,
                keys,
            ) == Some(items[i]->Err_0@),
{
    update_table::scans_are_used_up_to_their_first_error(items);
    let all = update_table::scanned(items).0;
    if (forall|i: int| 0 <= i < items.len() ==> (#[trigger] items[i]) is Ok) && batches.len()
        == items.len() && (forall|i: int|
        0 <= i < items.len() ==> (#[trigger] items[i])->Ok_0@ == batches[i]) {
        assert(all =~= batches);
        accepted_vectors_have_one_row_each(batches, updates, keys);
    }
    assert forall|i: int|
        0 <= i < items.len() && (#[trigger] items[i]) is Err && (forall|j: int|
            0 <= j < i ==> (#[trigger] items[j]) is Ok) implies update_table::dv_update_fault(
        items,
        updates,
        keys,
    ) == Some(items[i]->Err_0@) by {
        lemma_first_error(items, i);
    }
}

} // verus!
