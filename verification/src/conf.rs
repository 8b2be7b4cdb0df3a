use vstd::prelude::*;
use vstd::string::StrSliceExecFns;
use vstd::string::StringExecFns;

verus! {

/// Errors of the configuration file.
#[derive(Clone, Copy, PartialEq, Eq, Structural, Debug)]
pub enum ConfError {
    /// There is no configuration file yet: initialization must run
    /// first.
    NotInitialized,
    /// The file holds no version: every line is blank or a comment.
    EmptyConfig,
    /// The configured line is not a supported Java version.
    InvalidVersion,
}

/// The whitespace characters trimmed from a configuration line: the
/// characters with the Unicode `White_Space` property, as `str::trim`
/// removes them.
pub open spec fn is_space(c: char) -> bool {
    ||| c == ' '
    ||| ('\u{9}' <= c && c <= '\u{d}')
    ||| c == '\u{85}'
    ||| c == '\u{a0}'
    ||| c == '\u{1680}'
    ||| ('\u{2000}' <= c && c <= '\u{200a}')
    ||| c == '\u{2028}'
    ||| c == '\u{2029}'
    ||| c == '\u{202f}'
    ||| c == '\u{205f}'
    ||| c == '\u{3000}'
}

/// A line with its surrounding whitespace removed.
pub open spec fn trim_of(s: Seq<char>) -> Seq<char>
    decreases s.len(),
{
    if s.len() == 0 {
        s
    } else if is_space(s.first()) {
        trim_of(s.drop_first())
    } else if is_space(s.last()) {
        trim_of(s.drop_last())
    } else {
        s
    }
}

/// A line that configures something: non-blank and not a `#` comment.
pub open spec fn effective(line: Seq<char>) -> bool {
    trim_of(line).len() > 0 && trim_of(line).first() != '#'
}

/// Index of the first line break, or the text's length when there is
/// none.
pub open spec fn find_newline(s: Seq<char>) -> int
    decreases s.len(),
{
    if s.len() == 0 {
        0
    } else if s.first() == '\n' {
        0
    } else {
        1 + find_newline(s.drop_first())
    }
}

/// The version a configuration text holds: the first non-blank,
/// non-comment line, trimmed; `None` when no line configures anything.
pub open spec fn config_version_of(s: Seq<char>) -> Option<Seq<char>>
    decreases s.len(),
    via config_version_of_decreases
{
    let k = find_newline(s);
    let line = s.subrange(0, k);
    if effective(line) {
        Some(trim_of(line))
    } else if k == s.len() {
        None
    } else {
        config_version_of(s.skip(k + 1))
    }
}

#[via_fn]
proof fn config_version_of_decreases(s: Seq<char>) {
    lemma_find_newline_bounds(s);
}

proof fn lemma_find_newline_bounds(s: Seq<char>)
    ensures
        0 <= find_newline(s) <= s.len(),
    decreases s.len(),
{
    if s.len() > 0 && s.first() != '\n' {
        lemma_find_newline_bounds(s.drop_first());
    }
}

proof fn lemma_find_newline(s: Seq<char>, k: int)
    requires
        0 <= k <= s.len(),
        forall|j: int| 0 <= j < k ==> s[j] != '\n',
        k == s.len() || s[k] == '\n',
    ensures
        find_newline(s) == k,
    decreases s.len(),
{
    if s.len() == 0 {
    } else if s.first() == '\n' {
        assert(k == 0);
    } else {
        lemma_find_newline(s.drop_first(), k - 1);
    }
}

proof fn lemma_trim(s: Seq<char>, a: int, b: int)
    requires
        0 <= a <= b <= s.len(),
        forall|j: int| 0 <= j < a ==> is_space(s[j]),
        forall|j: int| b <= j < s.len() ==> is_space(s[j]),
        a == b || (!is_space(s[a]) && !is_space(s[b - 1])),
    ensures
        trim_of(s) == s.subrange(a, b),
    decreases s.len(),
{
    if a == b {
        lemma_trim_all_spaces(s);
        assert(trim_of(s) =~= s.subrange(a, b));
    } else if a > 0 {
        lemma_trim(s.drop_first(), a - 1, b - 1);
        assert(s.drop_first().subrange(a - 1, b - 1) =~= s.subrange(a, b));
    } else if b < s.len() {
        assert(is_space(s.last()));
        assert(!is_space(s.first()));
        lemma_trim(s.drop_last(), a, b);
        assert(s.drop_last().subrange(a, b) =~= s.subrange(a, b));
    } else {
        assert(!is_space(s.first()));
        assert(!is_space(s.last()));
        assert(trim_of(s) == s);
        assert(s.subrange(0, s.len() as int) =~= s);
    }
}

proof fn lemma_trim_all_spaces(s: Seq<char>)
    requires
        forall|j: int| 0 <= j < s.len() ==> is_space(s[j]),
    ensures
        trim_of(s).len() == 0,
    decreases s.len(),
{
    if s.len() > 0 {
        lemma_trim_all_spaces(s.drop_first());
    }
}

/// Whether a character counts as trimmable whitespace.
fn is_space_char(c: char) -> (r: bool)
    ensures
        r == is_space(c),
{
    c == ' ' || ('\u{9}' <= c && c <= '\u{d}') || c == '\u{85}' || c == '\u{a0}' || c == '\u{1680}'
        || ('\u{2000}' <= c && c <= '\u{200a}') || c == '\u{2028}' || c == '\u{2029}' || c
        == '\u{202f}' || c == '\u{205f}' || c == '\u{3000}'
}

/// Scans a configuration text for its first effective line: skips
/// blank lines and `#` comments, and returns the first remaining line,
/// trimmed.
fn first_effective_line(contents: &str) -> (r: Option<String>)
    ensures
        r is Some <==> config_version_of(contents@) is Some,
        r matches Some(v) ==> config_version_of(contents@) == Some(v@),
    decreases contents@.len(),
{
    let n = contents.unicode_len();
    let mut k: usize = 0;
    while k < n && contents.get_char(k) != '\n'
        invariant
            0 <= k <= n,
            n == contents@.len(),
            forall|j: int| 0 <= j < k ==> contents@[j] != '\n',
        decreases n - k,
    {
        k = k + 1;
    }
    proof {
        lemma_find_newline(contents@, k as int);
    }
    let ghost line = contents@.subrange(0, k as int);
    let mut a: usize = 0;
    let mut b: usize = k;
    while a < b && is_space_char(contents.get_char(a))
        invariant
            0 <= a <= b <= k <= n,
            n == contents@.len(),
            forall|j: int| 0 <= j < a ==> is_space(contents@[j]),
        decreases b - a,
    {
        a = a + 1;
    }
    while b > a && is_space_char(contents.get_char(b - 1))
        invariant
            0 <= a <= b <= k <= n,
            n == contents@.len(),
            forall|j: int| b <= j < k ==> is_space(contents@[j]),
        decreases b,
    {
        b = b - 1;
    }
    proof {
        assert forall|j: int| 0 <= j < a implies is_space(line[j]) by {
            assert(line[j] == contents@[j]);
        }
        assert forall|j: int| b <= j < line.len() implies is_space(line[j]) by {
            assert(line[j] == contents@[j]);
        }
        lemma_trim(line, a as int, b as int);
    }
    if a < b && contents.get_char(a) != '#' {
        assert(effective(line));
        let v = contents.substring_char(a, b);
        proof {
            assert(v@ =~= line.subrange(a as int, b as int));
        }
        Some(String::from_str(v))
    } else {
        assert(!effective(line));
        if k == n {
            None
        } else {
            let rest = contents.substring_char(k + 1, n);
            proof {
                assert(rest@ =~= contents@.skip(k + 1));
            }
            first_effective_line(rest)
        }
    }
}

/// Reads the configured Java version out of the configuration file's
/// text, when the file exists: the first non-blank, non-comment line,
/// which must be a supported major version. A missing file asks the
/// caller to initialize first; nothing further is attempted for it.
pub fn load(contents: Option<&str>) -> (r: Result<String, ConfError>)
    ensures
        contents is None ==> r == Err::<String, ConfError>(ConfError::NotInitialized),
        contents matches Some(c) ==> match config_version_of(c@) {
            Option::None => r == Err::<String, ConfError>(ConfError::EmptyConfig),
            Option::Some(line) => if valid_version(line) {
                r matches Ok(v) && v@ == line
            } else {
                r == Err::<String, ConfError>(ConfError::InvalidVersion)
            },
        },
{
    let c = match contents {
        None => {
            return Err(ConfError::NotInitialized);
        },
        Some(c) => c,
    };
    match first_effective_line(c) {
        None => Err(ConfError::EmptyConfig),
        Some(v) => {
            if is_valid_version(v.as_str()) {
                Ok(v)
            } else {
                Err(ConfError::InvalidVersion)
            }
        },
    }
}

/// The text a fresh configuration file is given: a comment header
/// naming the tool, then the configured version on its own line.
pub fn init_config(latest_release: &str) -> (r: String)
    ensures
        r@ == "# Java version configured by J'Lo - https://github.com/java-loader/jlo\n"@
            + latest_release@ + "\n"@,
{
    let mut out = String::from_str(
        "# Java version configured by J'Lo - https://github.com/java-loader/jlo\n",
    );
    out.append(latest_release);
    out.append("\n");
    out
}

/// True when a version string names a supported Java major release:
/// a decimal integer (optionally preceded by `+`, as `u32` parsing
/// accepts) whose value is at least 8.
pub fn is_valid_version(version: &str) -> (r: bool)
    ensures
        r == valid_version(version@),
{
    let n = version.unicode_len();
    let mut i: usize = 0;
    if n > 0 && version.get_char(0) == '+' {
        i = 1;
    }
    let ghost digits = version@.subrange(i as int, n as int);
    assert(digits =~= version_digits(version@));
    if i == n {
        return false;
    }
    let mut acc: u64 = 0;
    let mut j: usize = i;
    while j < n
        invariant
            i <= j <= n,
            i < n,
            n == version@.len(),
            digits == version@.subrange(i as int, n as int),
            digits == version_digits(version@),
            forall|k: int| i <= k < j ==> is_digit(version@[k]),
            acc == dec_value(version@.subrange(i as int, j as int)),
            acc <= u32::MAX,
        decreases n - j,
    {
        let c = version.get_char(j);
        if !('0' <= c && c <= '9') {
            assert(digits[j - i] == version@[j as int]);
            assert(!valid_version(version@));
            return false;
        }
        let d: u64 = (c as u32 as u64) - ('0' as u32 as u64);
        assert(d == digit_value(version@[j as int]));
        acc = acc * 10 + d;
        proof {
            assert(version@.subrange(i as int, j + 1) =~= version@.subrange(
                i as int,
                j as int,
            ).push(version@[j as int]));
            lemma_dec_value_push(version@.subrange(i as int, j as int), version@[j as int]);
        }
        j = j + 1;
        if acc > u32::MAX as u64 {
            proof {
                assert(digits.subrange(0, j - i) =~= version@.subrange(i as int, j as int));
                if forall|k: int| 0 <= k < digits.len() ==> is_digit(digits[k]) {
                    lemma_dec_value_prefix_large(digits, j - i);
                }
                assert(!valid_version(version@));
            }
            return false;
        }
    }
    assert(version@.subrange(i as int, n as int) =~= digits);
    assert(forall|k: int| 0 <= k < digits.len() ==> is_digit(digits[k])) by {
        assert(forall|k: int| 0 <= k < digits.len() ==> digits[k] == version@[i + k]);
    }
    acc >= 8
}

/// The digits `0` through `9`.
pub open spec fn is_digit(c: char) -> bool {
    '0' <= c && c <= '9'
}

/// Numeric value of a single decimal digit.
pub open spec fn digit_value(c: char) -> int {
    c as int - '0' as int
}

/// Value of a sequence of decimal digits, most significant first.
pub open spec fn dec_value(s: Seq<char>) -> int
    decreases s.len(),
{
    if s.len() == 0 {
        0
    } else {
        dec_value(s.drop_last()) * 10 + digit_value(s.last())
    }
}

/// The digit string left after an optional leading `+` sign.
pub open spec fn version_digits(s: Seq<char>) -> Seq<char> {
    if s.len() > 0 && s[0] == '+' {
        s.skip(1)
    } else {
        s
    }
}

/// What `u32` parsing accepts, restricted to values >= 8: an optional
/// `+`, then at least one digit, with a value that fits in `u32`.
pub open spec fn valid_version(s: Seq<char>) -> bool {
    let d = version_digits(s);
    &&& d.len() > 0
    &&& (forall|k: int| 0 <= k < d.len() ==> is_digit(d[k]))
    &&& dec_value(d) <= u32::MAX
    &&& dec_value(d) >= 8
}

proof fn lemma_dec_value_push(s: Seq<char>, c: char)
    ensures
        dec_value(s.push(c)) == dec_value(s) * 10 + digit_value(c),
{
    assert(s.push(c).drop_last() =~= s);
}

/// If some prefix of a digit string already exceeds `u32::MAX`, the
/// whole string does too.
proof fn lemma_dec_value_prefix_large(s: Seq<char>, j: int)
    requires
        0 <= j <= s.len(),
        forall|k: int| 0 <= k < s.len() ==> is_digit(s[k]),
        dec_value(s.subrange(0, j)) > u32::MAX,
    ensures
        dec_value(s) > u32::MAX,
    decreases s.len() - j,
{
    if j < s.len() {
        assert(s.subrange(0, j + 1) =~= s.subrange(0, j).push(s[j]));
        lemma_dec_value_push(s.subrange(0, j), s[j]);
        lemma_dec_value_prefix_large(s, j + 1);
    } else {
        assert(s.subrange(0, j) =~= s);
    }
}

} // verus!
