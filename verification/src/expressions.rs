//! Column names.
use vstd::prelude::*;

use crate::text::{self, clone_texts, same_text, to_chars};

verus! {

/// The name of a column: the path of field names that leads to it.
#[derive(Debug, PartialEq, Eq)]
pub struct ColumnName {
    pub path: Vec<String>,
}

impl View for ColumnName {
    type V = Seq<Seq<char>>;

    open spec fn view(&self) -> Seq<Seq<char>> {
        text::texts(self.path@)
    }
}

/// The values of a list of column names.
pub open spec fn columns_view(s: Seq<ColumnName>) -> Seq<Seq<Seq<char>>> {
    Seq::new(s.len(), |i: int| s[i]@)
}

/// Whether a character may stand in a field name that is written without backticks.
pub open spec fn is_simple_char(c: char) -> bool {
    ('0' <= c <= '9') || ('a' <= c <= 'z') || ('A' <= c <= 'Z') || c == '_'
}

/// Whether a field name is written without backticks.
pub open spec fn is_simple_name(s: Seq<char>) -> bool {
    s.len() > 0 && !('0' <= s[0] <= '9') && forall|i: int|
        0 <= i < s.len() ==> is_simple_char(#[trigger] s[i])
}

/// A text in which every backtick is doubled.
pub open spec fn backticks_doubled(s: Seq<char>) -> Seq<char>
    decreases s.len(),
{
    if s.len() == 0 {
        s
    } else if s.last() == '`' {
        backticks_doubled(s.drop_last()) + seq!['`', '`']
    } else {
        backticks_doubled(s.drop_last()).push(s.last())
    }
}

/// How a field name is shown.
pub open spec fn field_name_text(s: Seq<char>) -> Seq<char> {
    if is_simple_name(s) {
        s
    } else {
        seq!['`'] + backticks_doubled(s) + seq!['`']
    }
}

/// How a column name is shown: its field names with dots between them.
pub open spec fn column_text(path: Seq<Seq<char>>) -> Seq<char>
    decreases path.len(),
{
    if path.len() == 0 {
        Seq::empty()
    } else if path.len() == 1 {
        field_name_text(path[0])
    } else {
        column_text(path.drop_last()) + seq!['.'] + field_name_text(path.last())
    }
}

impl ColumnName {
    /// The column that a path of field names leads to.
    pub fn new<const N: usize>(path: [&str; N]) -> (r: ColumnName)
        ensures
            r@ == Seq::new(N as nat, |i: int| path@[i]@),
    {
        let mut names: Vec<String> = Vec::new();
        let mut i: usize = 0;
        while i < N
            invariant
                i <= N,
                names@.len() == i,
                forall|j: int| 0 <= j < i ==> (#[trigger] names@[j])@ == path@[j]@,
            decreases N - i,
        {
            names.push(path[i].to_owned());
            i += 1;
        }
        assert(text::texts(names@) =~= Seq::new(N as nat, |i: int| path@[i]@));
        ColumnName { path: names }
    }

    /// The field names of the path.
    pub fn path(&self) -> (r: &Vec<String>)
        ensures
            text::texts(r@) == self@,
            r@.len() == self@.len(),
    {
        &self.path
    }

    /// Whether two column names are the same.
    pub fn same(&self, other: &ColumnName) -> (r: bool)
        ensures
            r == (self@ == other@),
    {
        if self.path.len() != other.path.len() {
            assert(self@.len() != other@.len());
            return false;
        }
        let mut i: usize = 0;
        while i < self.path.len()
            invariant
                i <= self.path@.len() == other.path@.len(),
                forall|j: int| 0 <= j < i ==> self@[j] == other@[j],
            decreases self.path.len() - i,
        {
            if !same_text(self.path[i].as_str(), other.path[i].as_str()) {
                assert(self@[i as int] != other@[i as int]);
                return false;
            }
            i += 1;
        }
        assert(self@ =~= other@);
        true
    }

    /// How the column name is shown: its field names with dots between them. A field name that is
    /// not made of letters, digits and underscores, or that begins with a digit, is put between
    /// backticks, and backticks in it are doubled.
    pub fn to_string(&self) -> (r: String)
        ensures
            r@ == column_text(self@),
    {
        let mut r = String::new();
        let mut i: usize = 0;
        proof {
            reveal_strlit(".");
            assert("."@ =~= seq!['.']);
            assert(self@.take(0) =~= Seq::<Seq<char>>::empty());
        }
        while i < self.path.len()
            invariant
                i <= self.path@.len(),
                "."@ == seq!['.'],
                r@ == column_text(self@.take(i as int)),
            decreases self.path.len() - i,
        {
            assert(self@.take(i + 1).drop_last() =~= self@.take(i as int));
            assert(self@.take(i + 1).last() == self@[i as int]);
            if i > 0 {
                r.append(".");
            }
            let shown = show_field_name(self.path[i].as_str());
            r.append(shown.as_str());
            i += 1;
        }
        assert(self@.take(i as int) =~= self@);
        r
    }
}

/// How a field name is shown.
fn show_field_name(s: &str) -> (r: String)
    ensures
        r@ == field_name_text(s@),
{
    let chars = to_chars(s);
    proof {
        reveal_strlit("`");
        reveal_strlit("``");
        assert("`"@ =~= seq!['`']);
        assert("``"@ =~= seq!['`', '`']);
    }
    let mut simple: bool = chars.len() > 0 && !(chars[0] >= '0' && chars[0] <= '9');
    let mut i: usize = 0;
    while i < chars.len()
        invariant
            i <= chars@.len(),
            chars@ == s@,
            simple == (s@.len() > 0 && !('0' <= s@[0] <= '9') && forall|j: int|
                0 <= j < i ==> is_simple_char(#[trigger] s@[j])),
        decreases chars.len() - i,
    {
        let c = chars[i];
        let ok: bool = (c >= '0' && c <= '9') || (c >= 'a' && c <= 'z') || (c >= 'A' && c <= 'Z')
            || c == '_';
        assert(ok == is_simple_char(s@[i as int]));
        simple = simple && ok;
        i += 1;
    }
    if simple {
        return s.to_owned();
    }
    let mut r = "`".to_owned();
    let mut i: usize = 0;
    assert(s@.take(0) =~= Seq::<char>::empty());
    while i < chars.len()
        invariant
            i <= chars@.len(),
            chars@ == s@,
            "`"@ == seq!['`'],
            "``"@ == seq!['`', '`'],
            r@ == seq!['`'] + backticks_doubled(s@.take(i as int)),
        decreases chars.len() - i,
    {
        assert(s@.take(i + 1).drop_last() =~= s@.take(i as int));
        assert(s@.take(i + 1).last() == s@[i as int]);
        let ghost before = backticks_doubled(s@.take(i as int));
        if chars[i] == '`' {
            r.append("``");
            assert(r@ =~= seq!['`'] + (before + seq!['`', '`']));
        } else {
            let one = s.substring_char(i, i + 1);
            r.append(one);
            assert(one@ =~= seq![s@[i as int]]);
            assert(r@ =~= seq!['`'] + before.push(s@[i as int]));
        }
        i += 1;
    }
    assert(s@.take(i as int) =~= s@);
    r.append("`");
    r
}

impl Clone for ColumnName {
    fn clone(&self) -> (r: ColumnName)
        ensures
            r@ == self@,
    {
        ColumnName { path: clone_texts(&self.path) }
    }
}

/// A copy of a list of column names.
pub fn clone_columns(list: &Vec<ColumnName>) -> (r: Vec<ColumnName>)
    ensures
        columns_view(r@) == columns_view(list@),
{
    let mut r: Vec<ColumnName> = Vec::new();
    let mut i: usize = 0;
    while i < list.len()
        invariant
            i <= list@.len(),
            r@.len() == i,
            forall|j: int| 0 <= j < i ==> (#[trigger] r@[j])@ == list@[j]@,
        decreases list.len() - i,
    {
        r.push(list[i].clone());
        i += 1;
    }
    assert(columns_view(r@) =~= columns_view(list@));
    r
}

/// Whether a list holds a column name.
pub fn contains_column(list: &Vec<ColumnName>, column: &ColumnName) -> (r: bool)
    ensures
        r == columns_view(list@).contains(column@),
{
    let mut i: usize = 0;
    while i < list.len()
        invariant
            i <= list@.len(),
            forall|j: int| 0 <= j < i ==> columns_view(list@)[j] != column@,
        decreases list.len() - i,
    {
        if list[i].same(column) {
            assert(columns_view(list@)[i as int] == column@);
            return true;
        }
        assert(columns_view(list@)[i as int] != column@);
        i += 1;
    }
    false
}

/// Where the reader of a list of column names stands.
#[derive(Debug, Clone, Copy, PartialEq, Eq, Structural)]
pub enum ListMode {
    /// Before a field name.
    Start,
    /// In a field name without backticks.
    Simple,
    /// Between backticks.
    Quoted,
    /// After a backtick that ends a field name or is the first of a doubled one.
    QuoteEnd,
    /// After a field name and white space.
    After,
}

/// What the reader of a list of column names has seen: whole columns, whole field names of the
/// column it is in, and the characters of the field name it is in.
pub struct ListState {
    pub columns: Seq<Seq<Seq<char>>>,
    pub path: Seq<Seq<char>>,
    pub field: Seq<char>,
    pub mode: ListMode,
}

/// Whether a character is white space.
pub open spec fn is_space(c: char) -> bool {
    c == ' ' || c == '\t' || c == '\n' || c == '\r'
}

/// The state after the end of a field name.
pub open spec fn field_done(s: ListState, mode: ListMode) -> ListState {
    ListState { path: s.path.push(s.field), field: Seq::empty(), mode, ..s }
}

/// The state after the end of a column.
pub open spec fn column_done(s: ListState) -> ListState {
    ListState {
        columns: s.columns.push(s.path),
        path: Seq::empty(),
        field: Seq::empty(),
        mode: ListMode::Start,
    }
}

/// The state after the end of a field name, by the character that ends it.
pub open spec fn after_field(s: ListState, c: char) -> Option<ListState> {
    if c == '.' {
        Some(field_done(s, ListMode::Start))
    } else if c == ',' {
        Some(column_done(field_done(s, ListMode::Start)))
    } else if is_space(c) {
        Some(field_done(s, ListMode::After))
    } else {
        None
    }
}

/// The state after one more character, or `None` where it may not come.
pub open spec fn list_step(s: ListState, c: char) -> Option<ListState> {
    match s.mode {
        ListMode::Start => if is_space(c) {
            Some(s)
        } else if c == '`' {
            Some(ListState { mode: ListMode::Quoted, ..s })
        } else if is_simple_char(c) && !('0' <= c <= '9') {
            Some(ListState { mode: ListMode::Simple, field: s.field.push(c), ..s })
        } else {
            None
        },
        ListMode::Simple => if is_simple_char(c) {
            Some(ListState { field: s.field.push(c), ..s })
        } else {
            after_field(s, c)
        },
        ListMode::Quoted => if c == '`' {
            Some(ListState { mode: ListMode::QuoteEnd, ..s })
        } else {
            Some(ListState { field: s.field.push(c), ..s })
        },
        ListMode::QuoteEnd => if c == '`' {
            Some(ListState { mode: ListMode::Quoted, field: s.field.push(c), ..s })
        } else {
            after_field(s, c)
        },
        ListMode::After => if is_space(c) {
            Some(s)
        } else if c == '.' {
            Some(ListState { mode: ListMode::Start, ..s })
        } else if c == ',' {
            Some(column_done(s))
        } else {
            None
        },
    }
}

/// The state after a text.
pub open spec fn list_read(text: Seq<char>) -> Option<ListState>
    decreases text.len(),
{
    if text.len() == 0 {
        Some(
            ListState {
                columns: Seq::empty(),
                path: Seq::empty(),
                field: Seq::empty(),
                mode: ListMode::Start,
            },
        )
    } else {
        match list_read(text.drop_last()) {
            None => None,
            Some(s) => list_step(s, text.last()),
        }
    }
}

/// The columns that a text lists: column names with commas between them, field names with dots
/// between them, white space around either, and field names between backticks where they hold
/// other characters. `None` where the text is malformed.
pub open spec fn column_list_of(text: Seq<char>) -> Option<Seq<Seq<Seq<char>>>> {
    match list_read(text) {
        None => None,
        Some(s) => match s.mode {
            ListMode::Start => if s.columns.len() == 0 && s.path.len() == 0 {
                Some(Seq::empty())
            } else {
                None
            },
            ListMode::Simple | ListMode::QuoteEnd => Some(s.columns.push(s.path.push(s.field))),
            ListMode::Quoted => None,
            ListMode::After => Some(s.columns.push(s.path)),
        },
    }
}

/// A malformed beginning makes the whole text malformed.
proof fn lemma_list_read_prefix(text: Seq<char>, n: int)
    requires
        0 <= n <= text.len(),
        list_read(text.take(n)) is None,
    ensures
        list_read(text) is None,
    decreases text.len(),
{
    if n == text.len() {
        assert(text.take(n) =~= text);
    } else {
        assert(text.drop_last().take(n) =~= text.take(n));
        lemma_list_read_prefix(text.drop_last(), n);
    }
}

/// The columns of an optional list.
pub open spec fn opt_columns(s: Option<Vec<ColumnName>>) -> Option<Seq<Seq<Seq<char>>>> {
    match s {
        Some(v) => Some(columns_view(v@)),
        None => None,
    }
}

/// Reads a list of column names.
pub fn parse_column_list(text: &str) -> (r: Option<Vec<ColumnName>>)
    ensures
        opt_columns(r) == column_list_of(text@),
{
    let chars = to_chars(text);
    let mut columns: Vec<ColumnName> = Vec::new();
    let mut path: Vec<String> = Vec::new();
    let mut field = String::new();
    let mut mode = ListMode::Start;
    let mut i: usize = 0;
    proof {
        assert(text@.take(0) =~= Seq::<char>::empty());
        assert(columns_view(columns@) =~= Seq::<Seq<Seq<char>>>::empty());
        assert(text::texts(path@) =~= Seq::<Seq<char>>::empty());
    }
    while i < chars.len()
        invariant
            i <= chars@.len(),
            chars@ == text@,
            list_read(text@.take(i as int)) == Some(
                ListState {
                    columns: columns_view(columns@),
                    path: text::texts(path@),
                    field: field@,
                    mode,
                },
            ),
        decreases chars.len() - i,
    {
        let c = chars[i];
        let ghost before = ListState {
            columns: columns_view(columns@),
            path: text::texts(path@),
            field: field@,
            mode,
        };
        proof {
            assert(text@.take(i + 1).drop_last() =~= text@.take(i as int));
            assert(text@.take(i + 1).last() == c);
            assert(list_read(text@.take(i + 1)) == list_step(before, c));
            if list_step(before, c) is None {
                lemma_list_read_prefix(text@, i + 1);
            }
        }
        let digit: bool = c >= '0' && c <= '9';
        let simple: bool = digit || (c >= 'a' && c <= 'z') || (c >= 'A' && c <= 'Z') || c == '_';
        let space: bool = c == ' ' || c == '\t' || c == '\n' || c == '\r';
        let one = text.substring_char(i, i + 1);
        assert(one@ =~= seq![c]);
        assert(field@ + one@ =~= field@.push(c));
        let mut ends: bool = false;
        match mode {
            ListMode::Start => {
                if c == '`' {
                    mode = ListMode::Quoted;
                } else if simple && !digit {
                    mode = ListMode::Simple;
                    field.append(one);
                } else if !space {
                    return None;
                }
            },
            ListMode::Simple => {
                if simple {
                    field.append(one);
                } else {
                    ends = true;
                }
            },
            ListMode::Quoted => {
                if c == '`' {
                    mode = ListMode::QuoteEnd;
                } else {
                    field.append(one);
                }
            },
            ListMode::QuoteEnd => {
                if c == '`' {
                    mode = ListMode::Quoted;
                    field.append(one);
                } else {
                    ends = true;
                }
            },
            ListMode::After => {
                if c == '.' {
                    mode = ListMode::Start;
                } else if c == ',' {
                    let ghost done = text::texts(path@);
                    columns.push(ColumnName { path });
                    path = Vec::new();
                    mode = ListMode::Start;
                    field = String::new();
                    assert(columns_view(columns@) =~= before.columns.push(done));
                    assert(text::texts(path@) =~= Seq::<Seq<char>>::empty());
                } else if !space {
                    return None;
                }
            },
        }
        if ends {
            if !(c == '.' || c == ',' || space) {
                return None;
            }
            path.push(field);
            field = String::new();
            assert(text::texts(path@) =~= before.path.push(before.field));
            if c == '.' {
                mode = ListMode::Start;
            } else if c == ',' {
                let ghost done = text::texts(path@);
                columns.push(ColumnName { path });
                path = Vec::new();
                mode = ListMode::Start;
                assert(columns_view(columns@) =~= before.columns.push(done));
                assert(text::texts(path@) =~= Seq::<Seq<char>>::empty());
            } else {
                mode = ListMode::After;
            }
        }
        i += 1;
    }
    assert(text@.take(i as int) =~= text@);
    let ghost last = ListState {
        columns: columns_view(columns@),
        path: text::texts(path@),
        field: field@,
        mode,
    };
    match mode {
        ListMode::Start => {
            if columns.len() == 0 && path.len() == 0 {
                assert(columns_view(columns@) =~= Seq::<Seq<Seq<char>>>::empty());
                Some(columns)
            } else {
                None
            }
        },
        ListMode::Quoted => None,
        ListMode::Simple | ListMode::QuoteEnd => {
            path.push(field);
            assert(text::texts(path@) =~= last.path.push(last.field));
            let ghost done = text::texts(path@);
            columns.push(ColumnName { path });
            assert(columns_view(columns@) =~= last.columns.push(done));
            Some(columns)
        },
        ListMode::After => {
            columns.push(ColumnName { path });
            assert(columns_view(columns@) =~= last.columns.push(last.path));
            Some(columns)
        },
    }
}

/// A condition on rows by which whole groups of rows can be skipped. Conditions of the type `P`
/// come from the caller and are passed on unread.
#[derive(Debug, PartialEq, Eq)]
pub enum Predicate<P> {
    IsNotNull(ColumnName),
    And(Box<Predicate<P>>, Box<Predicate<P>>),
    Or(Box<Predicate<P>>, Box<Predicate<P>>),
    Given(P),
}

/// The mathematical value of a [`Predicate`].
pub enum PredicateView<P> {
    IsNotNull(Seq<Seq<char>>),
    And(Box<PredicateView<P>>, Box<PredicateView<P>>),
    Or(Box<PredicateView<P>>, Box<PredicateView<P>>),
    Given(P),
}

/// The value of a predicate.
pub open spec fn predicate_view<P>(p: Predicate<P>) -> PredicateView<P>
    decreases p,
{
    match p {
        Predicate::IsNotNull(c) => PredicateView::IsNotNull(c@),
        Predicate::And(a, b) => PredicateView::And(
            Box::new(predicate_view(*a)),
            Box::new(predicate_view(*b)),
        ),
        Predicate::Or(a, b) => PredicateView::Or(
            Box::new(predicate_view(*a)),
            Box::new(predicate_view(*b)),
        ),
        Predicate::Given(g) => PredicateView::Given(g),
    }
}

/// The value of an optional predicate.
pub open spec fn opt_predicate<P>(p: Option<Predicate<P>>) -> Option<PredicateView<P>> {
    match p {
        Some(p) => Some(predicate_view(p)),
        None => None,
    }
}

} // verus!
