//! Text building blocks: joining pieces, writing and reading decimal numbers, prefix tests.
use vstd::prelude::*;

verus! {

/// The digit character for a value below ten.
pub open spec fn digit(d: nat) -> char {
    ('0' as nat + d) as char
}

/// The decimal representation of a natural number, without leading zeros.
pub open spec fn decimal(n: nat) -> Seq<char>
    decreases n,
{
    if n < 10 {
        seq![digit(n)]
    } else {
        decimal(n / 10).push(digit(n % 10))
    }
}

/// The decimal representation of an integer: a minus sign in front of a negative one.
pub open spec fn signed_decimal(n: int) -> Seq<char> {
    if n < 0 {
        seq!['-'] + decimal((-n) as nat)
    } else {
        decimal(n as nat)
    }
}

/// The characters of each string of a list.
pub open spec fn texts(strings: Seq<String>) -> Seq<Seq<char>> {
    Seq::new(strings.len(), |i: int| strings[i]@)
}

/// The characters of an optional string.
pub open spec fn opt_text(s: Option<String>) -> Option<Seq<char>> {
    match s {
        Some(s) => Some(s@),
        None => None,
    }
}

/// Whether `s` begins with `prefix`.
pub open spec fn has_prefix(s: Seq<char>, prefix: Seq<char>) -> bool {
    prefix.len() <= s.len() && s.subrange(0, prefix.len() as int) == prefix
}

pub fn text2(a: &str, b: &str) -> (r: String)
    ensures
        r@ == a@ + b@,
{
    let mut s = String::new();
    s.append(a);
    s.append(b);
    s
}

pub fn text3(a: &str, b: &str, c: &str) -> (r: String)
    ensures
        r@ == a@ + b@ + c@,
{
    let mut s = text2(a, b);
    s.append(c);
    s
}

pub fn text4(a: &str, b: &str, c: &str, d: &str) -> (r: String)
    ensures
        r@ == a@ + b@ + c@ + d@,
{
    let mut s = text3(a, b, c);
    s.append(d);
    s
}

pub fn text5(a: &str, b: &str, c: &str, d: &str, e: &str) -> (r: String)
    ensures
        r@ == a@ + b@ + c@ + d@ + e@,
{
    let mut s = text4(a, b, c, d);
    s.append(e);
    s
}

pub fn text7(a: &str, b: &str, c: &str, d: &str, e: &str, f: &str, g: &str) -> (r: String)
    ensures
        r@ == a@ + b@ + c@ + d@ + e@ + f@ + g@,
{
    let mut s = text5(a, b, c, d, e);
    s.append(f);
    s.append(g);
    s
}

/// The one-character text of a digit.
fn digit_text(d: u64) -> (r: &'static str)
    requires
        d < 10,
    ensures
        r@ == seq![digit(d as nat)],
{
    proof {
        reveal_strlit("0");
        reveal_strlit("1");
        reveal_strlit("2");
        reveal_strlit("3");
        reveal_strlit("4");
        reveal_strlit("5");
        reveal_strlit("6");
        reveal_strlit("7");
        reveal_strlit("8");
        reveal_strlit("9");
    }
    match d {
        0 => "0",
        1 => "1",
        2 => "2",
        3 => "3",
        4 => "4",
        5 => "5",
        6 => "6",
        7 => "7",
        8 => "8",
        _ => "9",
    }
}

/// Writes an unsigned integer in decimal.
pub fn unsigned_text(n: u64) -> (r: String)
    ensures
        r@ == decimal(n as nat),
    decreases n,
{
    if n < 10 {
        proof {
            reveal_strlit("");
        }
        text2("", digit_text(n))
    } else {
        let mut s = unsigned_text(n / 10);
        s.append(digit_text(n % 10));
        s
    }
}

/// Writes a signed integer in decimal.
pub fn signed_text(n: i64) -> (r: String)
    ensures
        r@ == signed_decimal(n as int),
{
    proof {
        reveal_strlit("-");
    }
    if n >= 0 {
        unsigned_text(n as u64)
    } else if n == i64::MIN {
        let digits = unsigned_text(9223372036854775808);
        text2("-", digits.as_str())
    } else {
        let digits = unsigned_text((-n) as u64);
        text2("-", digits.as_str())
    }
}

/// The characters of a string as a vector.
pub fn to_chars(s: &str) -> (r: Vec<char>)
    ensures
        r@ == s@,
{
    let mut r: Vec<char> = Vec::new();
    for c in it: s.chars()
        invariant
            it.seq() == s@,
            r@ == s@.take(it.index()),
    {
        r.push(c);
    }
    r
}

/// Whether `s` begins with `prefix`.
pub fn starts_with(s: &str, prefix: &str) -> (r: bool)
    ensures
        r == has_prefix(s@, prefix@),
{
    let a = to_chars(s);
    let b = to_chars(prefix);
    if b.len() > a.len() {
        return false;
    }
    let mut i: usize = 0;
    while i < b.len()
        invariant
            i <= b.len() <= a.len(),
            a@ == s@,
            b@ == prefix@,
            forall|j: int| 0 <= j < i ==> a@[j] == b@[j],
        decreases b.len() - i,
    {
        if a[i] != b[i] {
            assert(a@.subrange(0, b@.len() as int)[i as int] == a@[i as int]);
            return false;
        }
        i += 1;
    }
    assert(a@.subrange(0, b@.len() as int) =~= b@);
    true
}

/// What follows `prefix` in `s`, or `None` where `s` does not begin with it.
pub fn strip_prefix<'a>(s: &'a str, prefix: &str) -> (r: Option<&'a str>)
    ensures
        has_prefix(s@, prefix@) ==> (r matches Some(t) && t@ == s@.skip(prefix@.len() as int)),
        !has_prefix(s@, prefix@) ==> r is None,
{
    if starts_with(s, prefix) {
        let n: usize = prefix.unicode_len();
        let m: usize = s.unicode_len();
        Some(s.substring_char(n, m))
    } else {
        None
    }
}

/// Whether a character is one of the ten decimal digits.
pub open spec fn is_digit(c: char) -> bool {
    '0' <= c <= '9'
}

/// The number that a text of decimal digits stands for; `None` where it holds anything else.
/// An empty text counts as zero.
pub open spec fn digits_value(s: Seq<char>) -> Option<nat>
    decreases s.len(),
{
    if s.len() == 0 {
        Some(0)
    } else if !is_digit(s.last()) {
        None
    } else {
        match digits_value(s.drop_last()) {
            Some(v) => Some(10 * v + (s.last() as nat - '0' as nat) as nat),
            None => None,
        }
    }
}

/// The integer that a text stands for: an optional sign, then one or more digits.
pub open spec fn integer_value(s: Seq<char>) -> Option<int> {
    if s.len() == 0 {
        None
    } else if s[0] == '-' || s[0] == '+' {
        match digits_value(s.skip(1)) {
            Some(v) => if s.len() == 1 {
                None
            } else if s[0] == '-' {
                Some(-(v as int))
            } else {
                Some(v as int)
            },
            None => None,
        }
    } else {
        match digits_value(s) {
            Some(v) => Some(v as int),
            None => None,
        }
    }
}

/// Reads a signed integer: `None` where the text is not one or does not fit.
pub open spec fn parsed_signed(s: Seq<char>) -> Option<i64> {
    match integer_value(s) {
        Some(v) => if i64::MIN <= v <= i64::MAX {
            Some(v as i64)
        } else {
            None
        },
        None => None,
    }
}

/// Reads an unsigned integer, which may carry a plus sign but no minus sign: `None` where the
/// text is not one or does not fit.
pub open spec fn parsed_unsigned(s: Seq<char>) -> Option<u64> {
    if s.len() > 0 && s[0] == '-' {
        None
    } else {
        match integer_value(s) {
            Some(v) => if v <= u64::MAX {
                Some(v as u64)
            } else {
                None
            },
            None => None,
        }
    }
}

/// Past this value a number fits in none of the integer types read here.
pub const TOO_LARGE: u128 = 0x1_0000_0000_0000_0000;

/// The value of the digits from `from` on, cut off at [`TOO_LARGE`]; `None` where there is
/// anything but a digit.
fn read_digits(chars: &Vec<char>, from: usize) -> (r: Option<u128>)
    requires
        from <= chars@.len(),
    ensures
        digits_value(chars@.skip(from as int)) is None <==> r is None,
        digits_value(chars@.skip(from as int)) matches Some(v) ==> r == Some(
            (if v < TOO_LARGE as nat { v as u128 } else { TOO_LARGE }),
        ),
{
    let ghost all = chars@.skip(from as int);
    let mut value: u128 = 0;
    let mut i: usize = from;
    assert(all.take(0) =~= Seq::<char>::empty());
    while i < chars.len()
        invariant
            from <= i <= chars@.len(),
            all == chars@.skip(from as int),
            value <= TOO_LARGE,
            digits_value(all.take(i - from)) matches Some(v) && value == (if v < TOO_LARGE as nat {
                v as u128
            } else {
                TOO_LARGE
            }),
        decreases chars.len() - i,
    {
        let c = chars[i];
        let ghost prefix = all.take(i + 1 - from);
        assert(prefix.last() == c);
        assert(prefix.drop_last() =~= all.take(i - from));
        if c < '0' || c > '9' {
            proof {
                lemma_digits_prefix(all, i + 1 - from);
            }
            return None;
        }
        let next: u128 = value * 10 + (c as u128 - '0' as u128);
        if next < TOO_LARGE {
            value = next;
        } else {
            value = TOO_LARGE;
        }
        i += 1;
    }
    assert(all.take(i - from) =~= all);
    Some(value)
}

/// A text whose beginning is not all digits is not all digits.
proof fn lemma_digits_prefix(s: Seq<char>, n: int)
    requires
        0 <= n <= s.len(),
        digits_value(s.take(n)) is None,
    ensures
        digits_value(s) is None,
    decreases s.len(),
{
    if n == s.len() {
        assert(s.take(n) =~= s);
    } else {
        assert(s.drop_last().take(n) =~= s.take(n));
        lemma_digits_prefix(s.drop_last(), n);
    }
}

/// Reads a signed integer from its decimal text.
pub fn parse_signed(s: &str) -> (r: Option<i64>)
    ensures
        r == parsed_signed(s@),
{
    let chars = to_chars(s);
    if chars.len() == 0 {
        return None;
    }
    if chars[0] == '-' || chars[0] == '+' {
        match read_digits(&chars, 1) {
            None => None,
            Some(v) => if chars.len() == 1 {
                None
            } else if chars[0] == '-' {
                if v < 9223372036854775808 {
                    Some(-(v as i64))
                } else if v == 9223372036854775808 {
                    Some(i64::MIN)
                } else {
                    None
                }
            } else if v < 9223372036854775808 {
                Some(v as i64)
            } else {
                None
            },
        }
    } else {
        assert(chars@.skip(0) =~= chars@);
        match read_digits(&chars, 0) {
            None => None,
            Some(v) => if v < 9223372036854775808 {
                Some(v as i64)
            } else {
                None
            },
        }
    }
}

/// Reads an unsigned integer from its decimal text.
pub fn parse_unsigned(s: &str) -> (r: Option<u64>)
    ensures
        r == parsed_unsigned(s@),
{
    let chars = to_chars(s);
    if chars.len() == 0 || chars[0] == '-' {
        return None;
    }
    assert(chars@.skip(0) =~= chars@);
    let from: usize = if chars[0] == '+' {
        1
    } else {
        0
    };
    match read_digits(&chars, from) {
        None => None,
        Some(v) => if from == 1 && chars.len() == 1 {
            None
        } else if v < TOO_LARGE {
            Some(v as u64)
        } else {
            None
        },
    }
}

/// Whether `s` is one of the strings of a list.
pub fn contains_text(list: &Vec<String>, s: &str) -> (r: bool)
    ensures
        r == texts(list@).contains(s@),
{
    let mut i: usize = 0;
    while i < list.len()
        invariant
            i <= list.len(),
            forall|j: int| 0 <= j < i ==> list@[j]@ != s@,
        decreases list.len() - i,
    {
        if same_text(list[i].as_str(), s) {
            assert(texts(list@)[i as int] == s@);
            return true;
        }
        i += 1;
    }
    false
}

/// Whether two strings hold the same characters.
pub fn same_text(a: &str, b: &str) -> (r: bool)
    ensures
        r == (a@ == b@),
{
    let x = a.to_owned();
    let y = b.to_owned();
    x == y
}

/// A copy of a list of strings.
pub fn clone_texts(list: &Vec<String>) -> (r: Vec<String>)
    ensures
        texts(r@) == texts(list@),
{
    let mut r: Vec<String> = Vec::new();
    let mut i: usize = 0;
    while i < list.len()
        invariant
            i <= list.len(),
            r@.len() == i,
            forall|j: int| 0 <= j < i ==> r@[j]@ == list@[j]@,
        decreases list.len() - i,
    {
        r.push(list[i].clone());
        i += 1;
    }
    assert(texts(r@) =~= texts(list@));
    r
}

/// A copy of an optional string.
pub fn clone_opt(s: &Option<String>) -> (r: Option<String>)
    ensures
        opt_text(r) == opt_text(*s),
{
    match s {
        Some(t) => Some(t.clone()),
        None => None,
    }
}

/// How one text stands to another in lexicographic order.
#[derive(Debug, Clone, Copy, PartialEq, Eq, Structural)]
pub enum TextOrder {
    Before,
    Same,
    After,
}

/// How one text stands to another in lexicographic order.
pub open spec fn text_order_of(a: Seq<char>, b: Seq<char>) -> TextOrder
    decreases a.len(),
{
    if a.len() == 0 {
        if b.len() == 0 {
            TextOrder::Same
        } else {
            TextOrder::Before
        }
    } else if b.len() == 0 {
        TextOrder::After
    } else if a[0] < b[0] {
        TextOrder::Before
    } else if a[0] > b[0] {
        TextOrder::After
    } else {
        text_order_of(a.skip(1), b.skip(1))
    }
}

/// The order of texts is total: of two different texts one comes before the other.
pub proof fn text_order_is_total(a: Seq<char>, b: Seq<char>)
    ensures
        text_order_of(a, b) is Same <==> a == b,
        text_order_of(a, b) is Before <==> text_order_of(b, a) is After,
    decreases a.len(),
{
    if a.len() > 0 && b.len() > 0 {
        text_order_is_total(a.skip(1), b.skip(1));
        if a[0] == b[0] && a.skip(1) == b.skip(1) {
            assert(a =~= seq![a[0]] + a.skip(1));
            assert(b =~= seq![b[0]] + b.skip(1));
        }
    } else if a.len() == 0 && b.len() == 0 {
        assert(a =~= b);
    }
}

/// Whether a text comes before another: the two agree up to a place where the first has ended, or has
/// the smaller character.
pub open spec fn comes_before(a: Seq<char>, b: Seq<char>) -> bool {
    exists|k: int| #[trigger] first_difference(a, b, k) && (k == a.len() || a[k] < b[k])
}

/// Whether two texts agree up to a place where the second goes on, and the first has ended or has
/// another character.
pub open spec fn first_difference(a: Seq<char>, b: Seq<char>, k: int) -> bool {
    &&& 0 <= k <= a.len() && k < b.len()
    &&& forall|i: int| 0 <= i < k ==> a[i] == b[i]
    &&& k < a.len() ==> a[k] != b[k]
}

/// Texts are ordered by the first place where they differ; one that ends there comes first.
pub proof fn texts_are_ordered_by_their_first_difference(a: Seq<char>, b: Seq<char>)
    ensures
        text_order_of(a, b) is Before <==> comes_before(a, b),
    decreases a.len(),
{
    if a.len() == 0 {
        if b.len() > 0 {
            assert(first_difference(a, b, 0));
        }
    } else if b.len() > 0 {
        let x = a.skip(1);
        let y = b.skip(1);
        texts_are_ordered_by_their_first_difference(x, y);
        if a[0] != b[0] {
            assert(first_difference(a, b, 0));
        } else {
            if comes_before(x, y) {
                let k = choose|k: int| #[trigger]
                    first_difference(x, y, k) && (k == x.len() || x[k] < y[k]);
                assert forall|i: int| 0 <= i < k + 1 implies a[i] == b[i] by {
                    if i > 0 {
                        assert(x[i - 1] == y[i - 1]);
                    }
                }
                assert(first_difference(a, b, k + 1));
            }
            if comes_before(a, b) {
                let k = choose|k: int| #[trigger]
                    first_difference(a, b, k) && (k == a.len() || a[k] < b[k]);
                assert(k > 0);
                assert forall|i: int| 0 <= i < k - 1 implies x[i] == y[i] by {
                    assert(a[i + 1] == b[i + 1]);
                }
                assert(first_difference(x, y, k - 1));
            }
        }
    }
}

/// How one text stands to another in lexicographic order.
pub fn text_order(a: &str, b: &str) -> (r: TextOrder)
    ensures
        r == text_order_of(a@, b@),
{
    let x = to_chars(a);
    let y = to_chars(b);
    let mut i: usize = 0;
    assert(x@.skip(0) =~= x@);
    assert(y@.skip(0) =~= y@);
    while i < x.len() && i < y.len()
        invariant
            i <= x@.len(),
            i <= y@.len(),
            x@ == a@,
            y@ == b@,
            text_order_of(a@, b@) == text_order_of(x@.skip(i as int), y@.skip(i as int)),
        decreases x.len() - i,
    {
        assert(x@.skip(i as int).skip(1) =~= x@.skip(i + 1));
        assert(y@.skip(i as int).skip(1) =~= y@.skip(i + 1));
        if x[i] < y[i] {
            return TextOrder::Before;
        }
        if x[i] > y[i] {
            return TextOrder::After;
        }
        i += 1;
    }
    if i < y.len() {
        TextOrder::Before
    } else if i < x.len() {
        TextOrder::After
    } else {
        TextOrder::Same
    }
}

} // verus!
