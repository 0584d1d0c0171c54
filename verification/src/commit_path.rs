//! Reading the version of a commit off the name of its file.
use vstd::prelude::*;

use crate::commit_cover;
use crate::error::{self, DeltaResult, Error, ErrorView};
use crate::path::{FileMeta, FileMetaView, LogPathFileType, LogPathView, ParsedLogPath};
use crate::text::{self, parse_unsigned, text2, to_chars};
use crate::Version;

verus! {

/// What stands after the last slash of a URL.
pub open spec fn file_name_of(url: Seq<char>) -> Seq<char>
    decreases url.len(),
{
    if url.len() == 0 || url.last() == '/' {
        Seq::empty()
    } else {
        file_name_of(url.drop_last()).push(url.last())
    }
}

/// Whether a text consists of digits.
pub open spec fn all_digits(s: Seq<char>) -> bool {
    forall|i: int| 0 <= i < s.len() ==> text::is_digit(#[trigger] s[i])
}

/// The version in the first twenty characters of a file name.
pub open spec fn leading_version(name: Seq<char>) -> Option<Version> {
    if name.len() >= 20 && all_digits(name.take(20)) {
        text::parsed_unsigned(name.take(20))
    } else {
        None
    }
}

/// The type of the commit that a file name stands for, past the twenty characters of the version: a
/// published commit goes on with `.json`, a staged commit with a dot, the thirty-six characters that
/// name it, and `.json`. Which characters name a staged commit is not looked at.
pub open spec fn commit_kind(name: Seq<char>) -> Option<LogPathFileType> {
    if name.len() == 25 && name.skip(20) == ".json"@ {
        Some(LogPathFileType::Commit)
    } else if name.len() == 62 && name[20] == '.' && name.skip(57) == ".json"@ {
        Some(LogPathFileType::StagedCommit)
    } else {
        None
    }
}

/// The commit file that a file is, or the error where its name is not that of a commit file.
pub open spec fn parsed_commit(f: FileMetaView) -> Result<LogPathView, ErrorView> {
    let name = file_name_of(f.location);
    match (commit_kind(name), leading_version(name)) {
        (Some(file_type), Some(version)) => Ok(
            LogPathView {
                location: f,
                filename: name,
                extension: "json"@,
                version,
                file_type,
            },
        ),
        _ => Err(ErrorView::InternalError("Unable to parse commit file: "@ + f.location)),
    }
}

/// Where the file name begins in a URL.
fn name_start(chars: &Vec<char>) -> (r: usize)
    ensures
        r <= chars@.len(),
        chars@.skip(r as int) == file_name_of(chars@),
{
    let mut i: usize = chars.len();
    assert(chars@.take(i as int) =~= chars@);
    assert(file_name_of(chars@.take(i as int)) + chars@.skip(i as int) =~= file_name_of(chars@));
    while i > 0 && chars[i - 1] != '/'
        invariant
            i <= chars@.len(),
            file_name_of(chars@.take(i as int)) + chars@.skip(i as int) == file_name_of(chars@),
        decreases i,
    {
        let ghost t = chars@.take(i as int);
        assert(t.drop_last() =~= chars@.take(i - 1));
        assert(t.last() == chars@[i - 1]);
        assert(file_name_of(t.drop_last()).push(t.last()) + chars@.skip(i as int) =~= file_name_of(
            t.drop_last(),
        ) + chars@.skip(i - 1));
        i -= 1;
    }
    assert(file_name_of(chars@.take(i as int)) =~= Seq::<char>::empty()) by {
        if i > 0 {
            assert(chars@.take(i as int).last() == chars@[i - 1]);
        }
    }
    assert(chars@.skip(i as int) =~= file_name_of(chars@));
    i
}

/// Whether the characters from a position on are the end of a JSON file name.
fn ends_as_json(chars: &Vec<char>, from: usize) -> (r: bool)
    requires
        from + 5 == chars@.len(),
    ensures
        r == (chars@.skip(from as int) == ".json"@),
{
    proof {
        reveal_strlit(".json");
    }
    let n: usize = chars.len();
    assert(from + 5 == n);
    let r = chars[from] == '.' && chars[from + 1] == 'j' && chars[from + 2] == 's' && chars[from + 3]
        == 'o' && chars[from + 4] == 'n';
    proof {
        let s = chars@.skip(from as int);
        assert(s.len() == 5);
        if r {
            assert(s =~= ".json"@);
        } else {
            assert(s[0] != ".json"@[0] || s[1] != ".json"@[1] || s[2] != ".json"@[2] || s[3]
                != ".json"@[3] || s[4] != ".json"@[4]);
        }
    }
    r
}

impl ParsedLogPath {
    /// Reads the name of a commit file. Fails where it is not that of a commit file.
    pub fn parse_commit(location: FileMeta) -> (r: DeltaResult<ParsedLogPath>)
        ensures
            parsed_commit(location@) matches Ok(p) ==> (r matches Ok(q) && q@ == p),
            parsed_commit(location@) matches Err(e) ==> error::failure(r) == Some(e),
    {
        let chars = to_chars(location.location.as_str());
        let start: usize = name_start(&chars);
        let total: usize = location.location.as_str().unicode_len();
        let filename = location.location.as_str().substring_char(start, total).to_owned();
        assert(filename@ =~= file_name_of(location@.location));
        let name = to_chars(filename.as_str());
        let kind: Option<LogPathFileType> = if name.len() == 25 && ends_as_json(&name, 20) {
            Some(LogPathFileType::Commit)
        } else if name.len() == 62 && name[20] == '.' && ends_as_json(&name, 57) {
            Some(LogPathFileType::StagedCommit)
        } else {
            None
        };
        if let Some(file_type) = kind {
            let mut digits: bool = true;
            let mut i: usize = 0;
            while i < 20
                invariant
                    i <= 20 <= name@.len(),
                    digits == forall|j: int| 0 <= j < i ==> text::is_digit(#[trigger] name@[j]),
                decreases 20 - i,
            {
                if name[i] < '0' || name[i] > '9' {
                    assert(!text::is_digit(name@[i as int]));
                    digits = false;
                }
                i += 1;
            }
            assert(digits == all_digits(name@.take(20))) by {
                if digits {
                    assert forall|j: int| 0 <= j < 20 implies text::is_digit(
                        #[trigger] name@.take(20)[j],
                    ) by {
                        assert(text::is_digit(name@[j]));
                    }
                } else {
                    let j = choose|j: int| 0 <= j < 20 && !text::is_digit(#[trigger] name@[j]);
                    assert(!text::is_digit(name@.take(20)[j]));
                }
            }
            if digits {
                let head = filename.as_str().substring_char(0, 20);
                assert(head@ =~= name@.take(20));
                if let Some(version) = parse_unsigned(head) {
                    return Ok(
                        ParsedLogPath {
                            location,
                            filename,
                            extension: "json".to_owned(),
                            version,
                            file_type,
                        },
                    );
                }
            }
        }
        Err(
            Error::InternalError(
                text2("Unable to parse commit file: ", location.location.as_str()),
            ),
        )
    }
}

/// The value of the decimal text of a number is the number.
pub proof fn lemma_decimal_value(n: nat)
    ensures
        text::digits_value(text::decimal(n)) == Some(n),
        text::decimal(n).len() >= 1,
        all_digits(text::decimal(n)),
    decreases n,
{
    if n >= 10 {
        lemma_decimal_value(n / 10);
        let s = text::decimal(n);
        assert(s.drop_last() =~= text::decimal(n / 10));
        assert(s.last() == text::digit(n % 10));
        assert(n == 10 * (n / 10) + n % 10) by (nonlinear_arith);
        assert forall|i: int| 0 <= i < s.len() implies text::is_digit(#[trigger] s[i]) by {
            if i < s.len() - 1 {
                assert(s[i] == text::decimal(n / 10)[i]);
            }
        }
    } else {
        let s = text::decimal(n);
        assert(s.drop_last() =~= Seq::<char>::empty());
        assert(text::digits_value(s.drop_last()) == Some(0nat));
    }
}

/// Zeros in front do not change the value of a number.
proof fn lemma_leading_zero(s: Seq<char>)
    requires
        text::digits_value(s) is Some,
    ensures
        text::digits_value(seq!['0'] + s) == text::digits_value(s),
    decreases s.len(),
{
    let t = seq!['0'] + s;
    if s.len() == 0 {
        assert(t.drop_last() =~= Seq::<char>::empty());
        assert(text::digits_value(t.drop_last()) == Some(0nat));
    } else {
        assert(t.drop_last() =~= seq!['0'] + s.drop_last());
        assert(t.last() == s.last());
        lemma_leading_zero(s.drop_last());
    }
}

/// Padding keeps the value and the digits of a number, and gives it the length that is asked for.
proof fn lemma_padded(s: Seq<char>, n: nat)
    requires
        text::digits_value(s) is Some,
        all_digits(s),
        s.len() <= n,
    ensures
        text::digits_value(commit_cover::padded(s, n)) == text::digits_value(s),
        all_digits(commit_cover::padded(s, n)),
        commit_cover::padded(s, n).len() == n,
    decreases n - s.len(),
{
    if s.len() < n {
        let t = seq!['0'] + s;
        lemma_leading_zero(s);
        assert forall|i: int| 0 <= i < t.len() implies text::is_digit(#[trigger] t[i]) by {
            if i > 0 {
                assert(t[i] == s[i - 1]);
            }
        }
        lemma_padded(t, n);
    }
}

/// A number has no more digits than a larger one.
proof fn lemma_decimal_length(n: nat)
    requires
        n <= u64::MAX,
    ensures
        text::decimal(n).len() <= 20,
{
    reveal_with_fuel(text::decimal, 21);
}

/// The name of a published commit gives back its version: reading the name that a version is
/// written as finds a published commit of that version.
pub proof fn published_name_gives_back_version(v: Version)
    ensures
        commit_kind(commit_cover::commit_file_name(v)) == Some(LogPathFileType::Commit),
        leading_version(commit_cover::commit_file_name(v)) == Some(v),
{
    reveal_strlit(".json");
    let d = text::decimal(v as nat);
    lemma_decimal_value(v as nat);
    lemma_decimal_length(v as nat);
    lemma_padded(d, 20);
    let p = commit_cover::padded(d, 20);
    let name = commit_cover::commit_file_name(v);
    assert(name.take(20) =~= p);
    assert(name.skip(20) =~= ".json"@);
    assert(text::is_digit(p[0]));
    assert(p[0] != '-' && p[0] != '+');
}

/// A number that is written down is read back as itself.
pub proof fn numbers_are_read_back(n: i64, u: u64)
    ensures
        text::parsed_signed(text::signed_decimal(n as int)) == Some(n),
        text::parsed_unsigned(text::decimal(u as nat)) == Some(u),
{
    lemma_decimal_value(u as nat);
    let d = text::decimal(u as nat);
    assert(text::is_digit(d[0]));
    if n < 0 {
        let m = (-n) as nat;
        lemma_decimal_value(m);
        let s = text::signed_decimal(n as int);
        assert(s.skip(1) =~= text::decimal(m));
        assert(s[0] == '-');
    } else {
        lemma_decimal_value(n as nat);
        let s = text::decimal(n as nat);
        assert(text::is_digit(s[0]));
    }
}

/// The name of a file is what comes after the last slash of its location.
pub proof fn file_names_come_after_the_last_slash(url: Seq<char>)
    ensures
        file_name_of(url).len() <= url.len(),
        url.skip(url.len() - file_name_of(url).len()) == file_name_of(url),
        forall|i: int| 0 <= i < file_name_of(url).len() ==> #[trigger] file_name_of(url)[i] != '/',
        file_name_of(url).len() < url.len() ==> url[url.len() - file_name_of(url).len() - 1] == '/',
    decreases url.len(),
{
    let name = file_name_of(url);
    if url.len() > 0 && url.last() != '/' {
        let front = url.drop_last();
        file_names_come_after_the_last_slash(front);
        let before = file_name_of(front);
        assert(url.skip(url.len() - name.len()) =~= front.skip(front.len() - before.len()).push(
            url.last(),
        ));
        assert forall|i: int| 0 <= i < name.len() implies #[trigger] name[i] != '/' by {
            if i < before.len() {
                assert(before[i] == name[i]);
            }
        }
    } else {
        assert(url.skip(url.len() as int) =~= name);
    }
}

/// A file is a commit exactly where its name is twenty digits that make a version and `.json`, for a
/// published one, with a dot and the thirty-six characters of an identifier before the ending for a
/// staged one. It is the commit of that version, at that place.
pub proof fn commits_are_named_by_version(f: FileMetaView)
    ensures
        ({
            let name = file_name_of(f.location);
            let published = name.len() == 25 && name.skip(20) == ".json"@;
            let staged = name.len() == 62 && name[20] == '.' && name.skip(57) == ".json"@;
            let digits = name.len() >= 20 && forall|i: int|
                0 <= i < 20 ==> '0' <= #[trigger] name[i] <= '9';
            let version = text::parsed_unsigned(name.take(20));
            &&& parsed_commit(f) is Ok <==> (published || staged) && digits && version is Some
            &&& parsed_commit(f) matches Ok(p) ==> {
                &&& p.location == f
                &&& p.filename == name
                &&& Some(p.version) == version
                &&& published ==> p.file_type is Commit
                &&& staged ==> p.file_type is StagedCommit
            }
        }),
{
    let name = file_name_of(f.location);
    if name.len() >= 20 {
        let head = name.take(20);
        if all_digits(head) {
            assert forall|i: int| 0 <= i < 20 implies '0' <= #[trigger] name[i] <= '9' by {
                assert(text::is_digit(head[i]));
            }
        }
        if forall|i: int| 0 <= i < 20 ==> '0' <= #[trigger] name[i] <= '9' {
            assert forall|i: int| 0 <= i < head.len() implies text::is_digit(#[trigger] head[i]) by {
                assert(head[i] == name[i]);
            }
        }
    }
}

} // verus!
