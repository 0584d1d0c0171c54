//! Which types can be read as which others.
use vstd::prelude::*;

use crate::bindings::{self, lowercase};
use crate::schema::{self, DataType, DataTypeView, FieldView, PrimitiveType, StructField};
use crate::string_map::StringMap;
use crate::text::{self, contains_text, same_text};

verus! {

/// Whether every value of a primitive type is also one of another, wider type.
pub open spec fn widens_to(a: PrimitiveType, b: PrimitiveType) -> bool {
    a == b || match (a, b) {
        (PrimitiveType::Byte, PrimitiveType::Short) => true,
        (PrimitiveType::Byte, PrimitiveType::Integer) => true,
        (PrimitiveType::Byte, PrimitiveType::Long) => true,
        (PrimitiveType::Short, PrimitiveType::Integer) => true,
        (PrimitiveType::Short, PrimitiveType::Long) => true,
        (PrimitiveType::Integer, PrimitiveType::Long) => true,
        (PrimitiveType::Float, PrimitiveType::Double) => true,
        _ => false,
    }
}

/// Whether a column of statistics of one primitive type can be read as another: the type widens,
/// or the file stores both in the same way.
pub open spec fn stats_type_compatible(a: PrimitiveType, b: PrimitiveType) -> bool {
    widens_to(a, b) || match (a, b) {
        (PrimitiveType::Integer, PrimitiveType::Date) => true,
        (PrimitiveType::Long, PrimitiveType::Timestamp) => true,
        (PrimitiveType::Long, PrimitiveType::TimestampNtz) => true,
        _ => false,
    }
}

impl PrimitiveType {
    /// Whether every value of the type is also one of another, wider type.
    pub fn can_widen_to(&self, other: &PrimitiveType) -> (r: bool)
        ensures
            r == widens_to(*self, *other),
    {
        *self == *other || match (*self, *other) {
            (PrimitiveType::Byte, PrimitiveType::Short) => true,
            (PrimitiveType::Byte, PrimitiveType::Integer) => true,
            (PrimitiveType::Byte, PrimitiveType::Long) => true,
            (PrimitiveType::Short, PrimitiveType::Integer) => true,
            (PrimitiveType::Short, PrimitiveType::Long) => true,
            (PrimitiveType::Integer, PrimitiveType::Long) => true,
            (PrimitiveType::Float, PrimitiveType::Double) => true,
            _ => false,
        }
    }

    /// Whether a column of statistics of the type can be read as another type.
    pub fn is_stats_type_compatible_with(&self, other: &PrimitiveType) -> (r: bool)
        ensures
            r == stats_type_compatible(*self, *other),
    {
        self.can_widen_to(other) || match (*self, *other) {
            (PrimitiveType::Integer, PrimitiveType::Date) => true,
            (PrimitiveType::Long, PrimitiveType::Timestamp) => true,
            (PrimitiveType::Long, PrimitiveType::TimestampNtz) => true,
            _ => false,
        }
    }
}

/// Whether two types are the same. The order of the entries in the metadata of a field does not
/// matter.
pub open spec fn types_match(a: DataTypeView, b: DataTypeView) -> bool
    decreases b,
{
    match (a, b) {
        (DataTypeView::Primitive(p), DataTypeView::Primitive(q)) => p == q,
        (DataTypeView::Array(p, m), DataTypeView::Array(q, n)) => types_match(*p, *q) && m == n,
        (DataTypeView::Mapping(k, v, m), DataTypeView::Mapping(l, w, n)) => types_match(*k, *l)
            && types_match(*v, *w) && m == n,
        (DataTypeView::Struct(s), DataTypeView::Struct(t)) => fields_match(s, t),
        (DataTypeView::Variant(s), DataTypeView::Variant(t)) => fields_match(s, t),
        _ => false,
    }
}

/// Whether two lists of fields are the same.
pub open spec fn fields_match(a: Seq<FieldView>, b: Seq<FieldView>) -> bool
    decreases b,
{
    a.len() == b.len() && forall|i: int|
        0 <= i < b.len() ==> a[i].name == (#[trigger] b[i]).name && a[i].nullable == b[i].nullable
            && a[i].metadata == b[i].metadata && types_match(a[i].data_type, b[i].data_type)
}

/// Whether two types are the same.
pub fn same_type(a: &DataType, b: &DataType) -> (r: bool)
    ensures
        r == types_match(a@, b@),
    decreases *b,
{
    match (a, b) {
        (DataType::Primitive(p), DataType::Primitive(q)) => *p == *q,
        (DataType::Array(p), DataType::Array(q)) => same_type(&p.element_type, &q.element_type)
            && p.contains_null == q.contains_null,
        (DataType::Mapping(p), DataType::Mapping(q)) => same_type(&p.key_type, &q.key_type)
            && same_type(&p.value_type, &q.value_type) && p.value_contains_null
            == q.value_contains_null,
        (DataType::Struct(p), DataType::Struct(q)) => same_fields(&p.fields, &q.fields),
        (DataType::Variant(p), DataType::Variant(q)) => same_fields(&p.fields, &q.fields),
        _ => false,
    }
}

/// Whether two lists of fields are the same.
pub fn same_fields(a: &Vec<StructField>, b: &Vec<StructField>) -> (r: bool)
    ensures
        r == fields_match(schema::fields_view(a@), schema::fields_view(b@)),
    decreases b@,
{
    if a.len() != b.len() {
        return false;
    }
    let ghost av = schema::fields_view(a@);
    let ghost bv = schema::fields_view(b@);
    let mut i: usize = 0;
    while i < b.len()
        invariant
            i <= b@.len(),
            a@.len() == b@.len(),
            av == schema::fields_view(a@),
            bv == schema::fields_view(b@),
            forall|j: int|
                0 <= j < i ==> av[j].name == (#[trigger] bv[j]).name && av[j].nullable
                    == bv[j].nullable && av[j].metadata == bv[j].metadata && types_match(
                    av[j].data_type,
                    bv[j].data_type,
                ),
        decreases b.len() - i,
    {
        assert(av[i as int] == schema::field_view(a@[i as int]));
        assert(bv[i as int] == schema::field_view(b@[i as int]));
        let same = same_text(a[i].name.as_str(), b[i].name.as_str()) && a[i].nullable
            == b[i].nullable && a[i].metadata == b[i].metadata && same_type(
            &a[i].data_type,
            &b[i].data_type,
        );
        if !same {
            return false;
        }
        i += 1;
    }
    true
}

/// What a table of lower-case forms gives for a name: the name itself where it has none.
pub open spec fn lower_in(lower: Map<Seq<char>, Seq<char>>, name: Seq<char>) -> Seq<char> {
    if lower.dom().contains(name) {
        lower[name]
    } else {
        name
    }
}

/// The lower-case forms of the names of fields.
pub open spec fn lower_names(lower: Map<Seq<char>, Seq<char>>, s: Seq<FieldView>) -> Seq<Seq<char>> {
    Seq::new(s.len(), |i: int| lower_in(lower, s[i].name))
}

/// Whether what may be null is read as something that may be null.
pub open spec fn nullability_compatible(nullable: bool, read_nullable: bool) -> bool {
    read_nullable || !nullable
}

/// Whether data of one type can be read as another, given the lower-case forms of names.
pub open spec fn readable_with(
    lower: Map<Seq<char>, Seq<char>>,
    have: DataTypeView,
    read: DataTypeView,
) -> bool
    decreases read,
{
    match (have, read) {
        (DataTypeView::Primitive(a), DataTypeView::Primitive(b)) => widens_to(a, b),
        (DataTypeView::Array(a, m), DataTypeView::Array(b, n)) => readable_with(lower, *a, *b)
            && nullability_compatible(m, n),
        (DataTypeView::Mapping(k, v, m), DataTypeView::Mapping(l, w, n)) => readable_with(
            lower,
            *k,
            *l,
        ) && readable_with(lower, *v, *w) && nullability_compatible(m, n),
        (DataTypeView::Struct(a), DataTypeView::Struct(b)) => fields_readable_with(lower, a, b),
        _ => types_match(have, read),
    }
}

/// Whether fields can be read as others, given the lower-case forms of names. On either side the
/// names are distinct without regard to case. Every field is read, under the name that it has, and a
/// field that is read but not there is nullable.
pub open spec fn fields_readable_with(
    lower: Map<Seq<char>, Seq<char>>,
    have: Seq<FieldView>,
    read: Seq<FieldView>,
) -> bool
    decreases read,
{
    &&& lower_names(lower, have).no_duplicates()
    &&& lower_names(lower, read).no_duplicates()
    &&& forall|i: int|
        0 <= i < have.len() ==> lower_names(lower, read).contains(
            #[trigger] lower_names(lower, have)[i],
        )
    &&& forall|j: int|
        0 <= j < read.len() ==> (lower_names(lower, have).contains(lower_names(lower, read)[j])
            || (#[trigger] read[j]).nullable)
    &&& forall|i: int, j: int|
        0 <= i < have.len() && 0 <= j < read.len() && #[trigger] lower_names(lower, have)[i]
            == #[trigger] lower_names(lower, read)[j] ==> nullability_compatible(
            have[i].nullable,
            read[j].nullable,
        ) && have[i].name == read[j].name && readable_with(
            lower,
            have[i].data_type,
            read[j].data_type,
        )
}

/// The names of the fields inside a type, at every depth, are among the given ones.
pub open spec fn type_names_in(names: Set<Seq<char>>, t: DataTypeView) -> bool
    decreases t,
{
    match t {
        DataTypeView::Primitive(_) => true,
        DataTypeView::Array(e, _) => type_names_in(names, *e),
        DataTypeView::Mapping(k, v, _) => type_names_in(names, *k) && type_names_in(names, *v),
        DataTypeView::Struct(s) => field_names_in(names, s),
        DataTypeView::Variant(_) => true,
    }
}

/// The names of fields and of those inside them, at every depth, are among the given ones.
pub open spec fn field_names_in(names: Set<Seq<char>>, s: Seq<FieldView>) -> bool
    decreases s,
{
    forall|i: int|
        0 <= i < s.len() ==> names.contains((#[trigger] s[i]).name) && type_names_in(
            names,
            s[i].data_type,
        )
}

/// The lower-case forms of all names.
pub open spec fn all_lower() -> Map<Seq<char>, Seq<char>> {
    Map::new(|n: Seq<char>| true, |n: Seq<char>| bindings::lowercased(n))
}

/// Whether data of one type can be read as another.
pub open spec fn readable_as(have: DataTypeView, read: DataTypeView) -> bool {
    readable_with(all_lower(), have, read)
}

/// Whether a table holds lower-case forms.
pub open spec fn holds_lower(lower: Map<Seq<char>, Seq<char>>) -> bool {
    forall|n: Seq<char>| #[trigger] lower.dom().contains(n) ==> lower[n] == bindings::lowercased(n)
}

/// A table with the lower-case forms of the names in two types says of them what the table of all
/// lower-case forms says.
proof fn lemma_readable_with(
    lower: Map<Seq<char>, Seq<char>>,
    have: DataTypeView,
    read: DataTypeView,
)
    requires
        holds_lower(lower),
        type_names_in(lower.dom(), have),
        type_names_in(lower.dom(), read),
    ensures
        readable_with(lower, have, read) == readable_with(all_lower(), have, read),
    decreases read,
{
    match (have, read) {
        (DataTypeView::Array(a, _), DataTypeView::Array(b, _)) => {
            lemma_readable_with(lower, *a, *b);
        },
        (DataTypeView::Mapping(k, v, _), DataTypeView::Mapping(l, w, _)) => {
            lemma_readable_with(lower, *k, *l);
            lemma_readable_with(lower, *v, *w);
        },
        (DataTypeView::Struct(a), DataTypeView::Struct(b)) => {
            lemma_fields_readable_with(lower, a, b);
        },
        _ => {},
    }
}

/// A table with the lower-case forms of the names in two lists of fields says of them what the table
/// of all lower-case forms says.
proof fn lemma_fields_readable_with(
    lower: Map<Seq<char>, Seq<char>>,
    have: Seq<FieldView>,
    read: Seq<FieldView>,
)
    requires
        holds_lower(lower),
        field_names_in(lower.dom(), have),
        field_names_in(lower.dom(), read),
    ensures
        fields_readable_with(lower, have, read) == fields_readable_with(all_lower(), have, read),
    decreases read,
{
    let h = lower_names(lower, have);
    let r = lower_names(lower, read);
    assert(h =~= lower_names(all_lower(), have)) by {
        assert forall|i: int| 0 <= i < have.len() implies h[i] == lower_names(all_lower(), have)[i] by {
            assert(lower.dom().contains(have[i].name));
        }
    }
    assert(r =~= lower_names(all_lower(), read)) by {
        assert forall|i: int| 0 <= i < read.len() implies r[i] == lower_names(all_lower(), read)[i] by {
            assert(lower.dom().contains(read[i].name));
        }
    }
    assert forall|i: int, j: int| 0 <= i < have.len() && 0 <= j < read.len() implies readable_with(
        lower,
        #[trigger] have[i].data_type,
        #[trigger] read[j].data_type,
    ) == readable_with(all_lower(), have[i].data_type, read[j].data_type) by {
        assert(lower.dom().contains(have[i].name) && lower.dom().contains(read[j].name));
        lemma_readable_with(lower, have[i].data_type, read[j].data_type);
    }
}

/// More names still hold those in a type.
proof fn lemma_more_names(a: Set<Seq<char>>, b: Set<Seq<char>>, t: DataTypeView)
    requires
        a.subset_of(b),
        type_names_in(a, t),
    ensures
        type_names_in(b, t),
    decreases t,
{
    match t {
        DataTypeView::Array(e, _) => {
            lemma_more_names(a, b, *e);
        },
        DataTypeView::Mapping(k, v, _) => {
            lemma_more_names(a, b, *k);
            lemma_more_names(a, b, *v);
        },
        DataTypeView::Struct(s) => {
            assert(field_names_in(a, s));
            assert forall|i: int| 0 <= i < s.len() implies b.contains((#[trigger] s[i]).name)
                && type_names_in(b, s[i].data_type) by {
                assert(a.contains(s[i].name));
                lemma_more_names(a, b, s[i].data_type);
            }
            assert(field_names_in(b, s));
        },
        _ => {},
    }
}

/// Adds the lower-case forms of the names inside a type to a table.
fn collect_lower(t: &DataType, lower: &mut StringMap<String>)
    requires
        holds_lower(old(lower)@),
    ensures
        holds_lower(final(lower)@),
        old(lower)@.dom().subset_of(final(lower)@.dom()),
        type_names_in(final(lower)@.dom(), t@),
    decreases *t,
{
    match t {
        DataType::Primitive(_) => {},
        DataType::Array(a) => {
            collect_lower(&a.element_type, lower);
        },
        DataType::Mapping(m) => {
            collect_lower(&m.key_type, lower);
            let ghost middle = lower@.dom();
            collect_lower(&m.value_type, lower);
            proof {
                lemma_more_names(middle, lower@.dom(), m.key_type@);
            }
        },
        DataType::Struct(s) => {
            collect_lower_fields(&s.fields, lower);
        },
        DataType::Variant(_) => {},
    }
}

/// Adds the lower-case forms of the names of fields and of those inside them to a table.
fn collect_lower_fields(fields: &Vec<StructField>, lower: &mut StringMap<String>)
    requires
        holds_lower(old(lower)@),
    ensures
        holds_lower(final(lower)@),
        old(lower)@.dom().subset_of(final(lower)@.dom()),
        field_names_in(final(lower)@.dom(), schema::fields_view(fields@)),
    decreases fields@,
{
    let ghost s = schema::fields_view(fields@);
    let ghost start = lower@.dom();
    let mut i: usize = 0;
    while i < fields.len()
        invariant
            i <= fields@.len(),
            s == schema::fields_view(fields@),
            holds_lower(lower@),
            start.subset_of(lower@.dom()),
            forall|j: int|
                0 <= j < i ==> lower@.dom().contains((#[trigger] s[j]).name) && type_names_in(
                    lower@.dom(),
                    s[j].data_type,
                ),
        decreases fields.len() - i,
    {
        let ghost before = lower@.dom();
        assert(s[i as int] == schema::field_view(fields@[i as int]));
        lower.insert(fields[i].name.clone(), lowercase(fields[i].name.as_str()));
        assert(before.subset_of(lower@.dom()));
        collect_lower(&fields[i].data_type, lower);
        assert(before.subset_of(lower@.dom()));
        assert forall|j: int| 0 <= j < i + 1 implies lower@.dom().contains((#[trigger] s[j]).name)
            && type_names_in(lower@.dom(), s[j].data_type) by {
            if j < i {
                assert(before.contains(s[j].name));
                lemma_more_names(before, lower@.dom(), s[j].data_type);
            }
        }
        i += 1;
    }
}

/// The lower-case forms of the names of fields.
fn lowered(lower: &StringMap<String>, fields: &Vec<StructField>) -> (r: Vec<String>)
    ensures
        text::texts(r@) == lower_names(lower@, schema::fields_view(fields@)),
        r@.len() == fields@.len(),
{
    let mut r: Vec<String> = Vec::new();
    let mut i: usize = 0;
    while i < fields.len()
        invariant
            i <= fields@.len(),
            r@.len() == i,
            forall|j: int| 0 <= j < i ==> (#[trigger] r@[j])@ == lower_in(lower@, fields@[j].name@),
        decreases fields.len() - i,
    {
        match lower.get(fields[i].name.as_str()) {
            Some(l) => {
                r.push(l.clone());
            },
            None => {
                r.push(fields[i].name.clone());
            },
        }
        i += 1;
    }
    assert(text::texts(r@) =~= lower_names(lower@, schema::fields_view(fields@)));
    r
}

/// Whether no text occurs twice.
pub fn all_distinct(list: &Vec<String>) -> (r: bool)
    ensures
        r == text::texts(list@).no_duplicates(),
{
    let ghost all = text::texts(list@);
    let mut i: usize = 0;
    while i < list.len()
        invariant
            i <= list@.len(),
            all == text::texts(list@),
            forall|a: int, b: int| 0 <= a < b < i ==> all[a] != all[b],
        decreases list.len() - i,
    {
        let mut j: usize = 0;
        while j < i
            invariant
                j <= i < list@.len(),
                all == text::texts(list@),
                forall|a: int| 0 <= a < j ==> all[a] != all[i as int],
            decreases i - j,
        {
            if same_text(list[j].as_str(), list[i].as_str()) {
                assert(all[j as int] == all[i as int]);
                return false;
            }
            assert(all[j as int] != all[i as int]);
            j += 1;
        }
        i += 1;
    }
    true
}

impl DataType {
    /// Whether data of this type can be read as another type.
    pub fn can_read_as(&self, read: &DataType) -> (r: bool)
        ensures
            r == readable_as(self@, read@),
    {
        let mut lower: StringMap<String> = StringMap::new();
        collect_lower(self, &mut lower);
        let ghost middle = lower@.dom();
        collect_lower(read, &mut lower);
        proof {
            lemma_more_names(middle, lower@.dom(), self@);
            lemma_readable_with(lower@, self@, read@);
        }
        type_can_read_as(&lower, self, read)
    }
}

/// Whether data of one type can be read as another, given the lower-case forms of names. A name that
/// has none stands for itself.
pub fn type_can_read_as(lower: &StringMap<String>, have: &DataType, read: &DataType) -> (r: bool)
    ensures
        r == readable_with(lower@, have@, read@),
    decreases *read,
{
    match (have, read) {
        (DataType::Primitive(a), DataType::Primitive(b)) => a.can_widen_to(b),
        (DataType::Array(a), DataType::Array(b)) => type_can_read_as(
            lower,
            &a.element_type,
            &b.element_type,
        ) && (b.contains_null || !a.contains_null),
        (DataType::Mapping(a), DataType::Mapping(b)) => type_can_read_as(lower, &a.key_type, &b.key_type)
            && type_can_read_as(lower, &a.value_type, &b.value_type) && (b.value_contains_null
            || !a.value_contains_null),
        (DataType::Struct(a), DataType::Struct(b)) => fields_can_read_as(
            lower,
            &a.fields,
            &b.fields,
        ),
        _ => same_type(have, read),
    }
}

/// Whether fields can be read as others, given the lower-case forms of names.
fn fields_can_read_as(
    lower: &StringMap<String>,
    have: &Vec<StructField>,
    read: &Vec<StructField>,
) -> (r: bool)
    ensures
        r == fields_readable_with(
            lower@,
            schema::fields_view(have@), schema::fields_view(read@)),
    decreases read@,
{
    let ghost hv = schema::fields_view(have@);
    let ghost rv = schema::fields_view(read@);
    let have_names = lowered(lower, have);
    let read_names = lowered(lower, read);
    let ghost hn = lower_names(lower@, hv);
    let ghost rn = lower_names(lower@, rv);
    if !all_distinct(&have_names) || !all_distinct(&read_names) {
        return false;
    }
    let mut i: usize = 0;
    while i < have.len()
        invariant
            i <= have@.len(),
            have_names@.len() == have@.len(),
            text::texts(have_names@) == hn,
            text::texts(read_names@) == rn,
            hn == lower_names(lower@, hv),
            rn == lower_names(lower@, rv),
            hv == schema::fields_view(have@),
            rv == schema::fields_view(read@),
            forall|a: int| 0 <= a < i ==> rn.contains(#[trigger] hn[a]),
        decreases have.len() - i,
    {
        assert(hn[i as int] == have_names@[i as int]@);
        if !contains_text(&read_names, have_names[i].as_str()) {
            return false;
        }
        i += 1;
    }
    let mut j: usize = 0;
    while j < read.len()
        invariant
            j <= read@.len(),
            have_names@.len() == have@.len(),
            read_names@.len() == read@.len(),
            text::texts(have_names@) == hn,
            text::texts(read_names@) == rn,
            hn == lower_names(lower@, hv),
            rn == lower_names(lower@, rv),
            hv == schema::fields_view(have@),
            rv == schema::fields_view(read@),
            forall|b: int| 0 <= b < j ==> (hn.contains(rn[b]) || (#[trigger] rv[b]).nullable),
            forall|a: int, b: int|
                0 <= a < have@.len() && 0 <= b < j && #[trigger] hn[a] == #[trigger] rn[b]
                    ==> nullability_compatible(hv[a].nullable, rv[b].nullable) && hv[a].name
                    == rv[b].name && readable_with(lower@, hv[a].data_type, rv[b].data_type),
        decreases read.len() - j,
    {
        let mut found: bool = false;
        let mut k: usize = 0;
        assert(rn[j as int] == read_names@[j as int]@);
        assert(rv[j as int] == schema::field_view(read@[j as int]));
        while k < have.len()
            invariant
                k <= have@.len(),
                j < read@.len(),
                have_names@.len() == have@.len(),
                read_names@.len() == read@.len(),
                text::texts(have_names@) == hn,
                text::texts(read_names@) == rn,
                hn == lower_names(lower@, hv),
                rn == lower_names(lower@, rv),
                hv == schema::fields_view(have@),
                rv == schema::fields_view(read@),
                rn[j as int] == read_names@[j as int]@,
                rv[j as int] == schema::field_view(read@[j as int]),
                found == exists|a: int| 0 <= a < k && #[trigger] hn[a] == rn[j as int],
                forall|a: int|
                    0 <= a < k && #[trigger] hn[a] == rn[j as int] ==> nullability_compatible(
                        hv[a].nullable,
                        rv[j as int].nullable,
                    ) && hv[a].name == rv[j as int].name && readable_with(lower@, 
                        hv[a].data_type,
                        rv[j as int].data_type,
                    ),
            decreases have.len() - k,
        {
            assert(hn[k as int] == have_names@[k as int]@);
            assert(hv[k as int] == schema::field_view(have@[k as int]));
            if same_text(have_names[k].as_str(), read_names[j].as_str()) {
                found = true;
                let ok = (read[j].nullable || !have[k].nullable) && same_text(
                    have[k].name.as_str(),
                    read[j].name.as_str(),
                ) && type_can_read_as(lower, &have[k].data_type, &read[j].data_type);
                if !ok {
                    assert(hn[k as int] == rn[j as int]);
                    return false;
                }
            }
            k += 1;
        }
        proof {
            if found {
                let a = choose|a: int| 0 <= a < have@.len() && #[trigger] hn[a] == rn[j as int];
                assert(hn.contains(rn[j as int]));
            } else {
                assert(!hn.contains(rn[j as int]));
            }
        }
        if !found && !read[j].nullable {
            assert(!rv[j as int].nullable);
            return false;
        }
        j += 1;
    }
    true
}

} // verus!
