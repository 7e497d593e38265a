use vstd::prelude::*;

verus! {

/// `pat` occurs somewhere in `s`.
pub open spec fn contains_text(s: Seq<char>, pat: Seq<char>) -> bool {
    exists|i: int| 0 <= i && i + pat.len() <= s.len() && #[trigger] s.subrange(i, i + pat.len()) == pat
}

/// Relies on `str::contains` with a string pattern: whether `pat` occurs in `s`.
#[verifier::external_body]
pub(crate) fn str_contains(s: &str, pat: &str) -> (r: bool)
    ensures
        r == contains_text(s@, pat@),
{
    s.contains(pat)
}

/// The characters that `char::is_whitespace` accepts: Unicode White_Space.
pub open spec fn is_white(c: char) -> bool {
    ('\t' <= c && c <= '\r') || c == ' ' || c == '\u{85}' || c == '\u{a0}' || c == '\u{1680}'
        || ('\u{2000}' <= c && c <= '\u{200a}') || c == '\u{2028}' || c == '\u{2029}'
        || c == '\u{202f}' || c == '\u{205f}' || c == '\u{3000}'
}

/// The number of leading white characters of `s`.
pub open spec fn leading_white(s: Seq<char>) -> nat
    decreases s.len(),
{
    if s.len() > 0 && is_white(s[0]) {
        1 + leading_white(s.drop_first())
    } else {
        0
    }
}

/// The number of trailing white characters of `s`.
pub open spec fn trailing_white(s: Seq<char>) -> nat
    decreases s.len(),
{
    if s.len() > 0 && is_white(s.last()) {
        1 + trailing_white(s.drop_last())
    } else {
        0
    }
}

/// `s` without its leading and trailing white characters.
pub open spec fn trimmed(s: Seq<char>) -> Seq<char> {
    let front = s.skip(leading_white(s) as int);
    front.take(front.len() - trailing_white(front))
}

/// Relies on `str::trim`: leading and trailing white space removed.
#[verifier::external_body]
pub(crate) fn trim(s: &str) -> (r: &str)
    ensures
        r@ == trimmed(s@),
{
    s.trim()
}

/// Relies on `str::chars`: the characters of `s` in order.
#[verifier::external_body]
pub(crate) fn chars_of(s: &str) -> (r: Vec<char>)
    ensures
        r@ == s@,
{
    s.chars().collect()
}

/// Relies on collecting characters into a `String`: the string of `v`.
#[verifier::external_body]
pub(crate) fn string_of(v: &Vec<char>) -> (r: String)
    ensures
        r@ == v@,
{
    v.iter().collect()
}

/// The value of digit `c` in base `radix` (letters of either case from 10 up).
pub open spec fn digit_value(c: char, radix: int) -> Option<int> {
    let v = if '0' <= c && c <= '9' {
        c as int - '0' as int
    } else if 'a' <= c && c <= 'z' {
        c as int - 'a' as int + 10
    } else if 'A' <= c && c <= 'Z' {
        c as int - 'A' as int + 10
    } else {
        radix
    };
    if v < radix {
        Some(v)
    } else {
        None
    }
}

/// The value of the digits `s` in base `radix`; `None` if one is not a digit.
pub open spec fn digits_value(s: Seq<char>, radix: int) -> Option<int>
    decreases s.len(),
{
    if s.len() == 0 {
        Some(0)
    } else {
        match (digits_value(s.drop_last(), radix), digit_value(s.last(), radix)) {
            (Some(v), Some(d)) => Some(v * radix + d),
            _ => None,
        }
    }
}

/// The integer that `s` writes in base `radix` as std's integer parsing
/// reads it: an optional `+` (or `-`, where `signed`), then one or more digits.
pub open spec fn int_text_value(s: Seq<char>, radix: int, signed: bool) -> Option<int> {
    let neg = signed && s.len() > 0 && s[0] == '-';
    let body = if s.len() > 0 && (s[0] == '+' || neg) {
        s.drop_first()
    } else {
        s
    };
    if body.len() == 0 {
        None
    } else {
        match digits_value(body, radix) {
            Some(v) => Some(
                if neg {
                    -v
                } else {
                    v
                },
            ),
            None => None,
        }
    }
}

/// The integer that `s` writes in base `radix`, if it lies in `lo..=hi`.
pub open spec fn int_in_range(s: Seq<char>, radix: int, signed: bool, lo: int, hi: int) -> Option<int> {
    match int_text_value(s, radix, signed) {
        Some(v) => if lo <= v <= hi {
            Some(v)
        } else {
            None
        },
        None => None,
    }
}

/// Relies on `i64::from_str`: a decimal integer with an optional sign.
#[verifier::external_body]
pub(crate) fn parse_i64(s: &str) -> (r: Option<i64>)
    ensures
        r matches Some(v) ==> int_in_range(s@, 10, true, i64::MIN as int, i64::MAX as int) == Some(
            v as int,
        ),
        r is None ==> int_in_range(s@, 10, true, i64::MIN as int, i64::MAX as int) is None,
{
    s.parse::<i64>().ok()
}

/// Relies on `i32::from_str`: a decimal integer with an optional sign.
#[verifier::external_body]
pub(crate) fn parse_i32(s: &str) -> (r: Option<i32>)
    ensures
        r matches Some(v) ==> int_in_range(s@, 10, true, i32::MIN as int, i32::MAX as int) == Some(
            v as int,
        ),
        r is None ==> int_in_range(s@, 10, true, i32::MIN as int, i32::MAX as int) is None,
{
    s.parse::<i32>().ok()
}

/// Relies on `u32::from_str_radix` in base 16: hexadecimal digits of either
/// case after an optional `+`.
#[verifier::external_body]
pub(crate) fn parse_hex_u32(s: &str) -> (r: Option<u32>)
    ensures
        r matches Some(v) ==> int_in_range(s@, 16, false, 0, u32::MAX as int) == Some(v as int),
        r is None ==> int_in_range(s@, 16, false, 0, u32::MAX as int) is None,
{
    u32::from_str_radix(s, 16).ok()
}

/// The local date and time that the RFC 3339 text `s` writes, read as if it
/// were UTC, in seconds since 1970-01-01T00:00:00; `None` if `s` is not
/// RFC 3339.
pub uninterp spec fn rfc3339_local_seconds(s: Seq<char>) -> Option<int>;

/// Relies on chrono's `DateTime::parse_from_rfc3339`, then `naive_local`,
/// `and_utc` and `timestamp`: the written local time as seconds.
#[verifier::external_body]
pub(crate) fn parse_rfc3339_local(s: &str) -> (r: Option<i64>)
    ensures
        r matches Some(v) ==> rfc3339_local_seconds(s@) == Some(v as int),
        r is None ==> rfc3339_local_seconds(s@) is None,
{
    chrono::DateTime::parse_from_rfc3339(s).ok().map(|d| d.naive_local().and_utc().timestamp())
}

/// The text of the first capture group of the leftmost match of the regular
/// expression `pattern` in `text`; `None` if the pattern is invalid, nothing
/// matches, or the group takes no part in the match.
pub uninterp spec fn regex_first_group(pattern: Seq<char>, text: Seq<char>) -> Option<Seq<char>>;

/// Relies on regex's `Regex::new` and `Regex::captures`, group 1 of the
/// leftmost match.
#[verifier::external_body]
pub(crate) fn regex_capture(pattern: &str, text: &str) -> (r: Option<String>)
    ensures
        r matches Some(v) ==> regex_first_group(pattern@, text@) == Some(v@),
        r is None ==> regex_first_group(pattern@, text@) is None,
{
    let caps = regex::Regex::new(pattern).ok()?.captures(text)?;
    caps.get(1).map(|m| m.as_str().to_owned())
}

/// Relies on `==` of `str`: the two texts are equal.
#[verifier::external_body]
pub(crate) fn text_eq(a: &str, b: &str) -> (r: bool)
    ensures
        r == (a@ == b@),
{
    a == b
}

/// The decimal digits of `n`, without leading zeros ("0" for zero).
pub open spec fn digits_text(n: nat) -> Seq<char>
    decreases n,
{
    let d = seq![(('0' as u8) + (n % 10) as u8) as char];
    if n < 10 {
        d
    } else {
        digits_text(n / 10) + d
    }
}

/// The decimal text of `v`: a `-` before the digits of a negative number.
pub open spec fn int_text(v: int) -> Seq<char> {
    if v < 0 {
        seq!['-'] + digits_text((-v) as nat)
    } else {
        digits_text(v as nat)
    }
}

/// Relies on the `Display` of `i128`: its decimal text.
#[verifier::external_body]
pub(crate) fn int_to_text(n: i128) -> (r: String)
    ensures
        r@ == int_text(n as int),
{
    n.to_string()
}

/// `s` with every `from` replaced by `to`.
pub open spec fn replaced(s: Seq<char>, from: char, to: Seq<char>) -> Seq<char>
    decreases s.len(),
{
    if s.len() == 0 {
        Seq::empty()
    } else {
        let head = if s[0] == from {
            to
        } else {
            seq![s[0]]
        };
        head + replaced(s.drop_first(), from, to)
    }
}

/// Relies on `str::replace` with a pattern of one character.
#[verifier::external_body]
pub(crate) fn replace_text(s: &str, from: &str, to: &str) -> (r: String)
    requires
        from@.len() == 1,
    ensures
        r@ == replaced(s@, from@[0], to@),
{
    s.replace(from, to)
}

/// The pattern of a character that is not an ASCII letter, digit or `_`.
pub const NON_WORD_PATTERN: &'static str = "[^A-Za-z0-9_]";

/// An ASCII letter, digit or `_`.
pub open spec fn is_word_char(c: char) -> bool {
    ('A' <= c && c <= 'Z') || ('a' <= c && c <= 'z') || ('0' <= c && c <= '9') || c == '_'
}

/// The characters of `s` that are ASCII letters, digits or `_`, in order.
pub open spec fn word_chars_only(s: Seq<char>) -> Seq<char> {
    s.filter(|c: char| is_word_char(c))
}

/// Relies on regex's `Regex::new` and `Regex::replace_all` with the class
/// `[^A-Za-z0-9_]` and an empty replacement: every other character goes.
#[verifier::external_body]
pub(crate) fn remove_matches(pattern: &str, s: &str) -> (r: String)
    requires
        pattern@ == NON_WORD_PATTERN@,
    ensures
        r@ == word_chars_only(s@),
{
    regex::Regex::new(pattern).map(|re| re.replace_all(s, "").into_owned()).unwrap_or_default()
}

/// The text of one CSV record of `fields` as the csv crate's default writer
/// writes it (comma separated, quoted where needed, `\n` at its end).
pub uninterp spec fn csv_record_text(fields: Seq<Seq<char>>) -> Seq<char>;

/// A field that the default writer leaves unquoted: it holds no `,`, `"`,
/// `\n` or `\r`.
pub open spec fn is_plain_field(f: Seq<char>) -> bool {
    forall|i: int| 0 <= i < f.len() ==> #[trigger] f[i] != ',' && f[i] != '"' && f[i] != '\n' && f[i] != '\r'
}

/// The fields joined with `,` between them.
pub open spec fn comma_joined(fields: Seq<Seq<char>>) -> Seq<char>
    decreases fields.len(),
{
    if fields.len() == 0 {
        Seq::empty()
    } else if fields.len() == 1 {
        fields[0]
    } else {
        comma_joined(fields.drop_last()) + seq![','] + fields.last()
    }
}

/// Relies on csv's `Writer::from_writer` over a `Vec<u8>`, `write_record`
/// and `into_inner`: one record written to memory cannot fail, and UTF-8
/// fields give UTF-8 text. With the default `QuoteStyle::Necessary` a field
/// is quoted only when it holds the delimiter, the quote, `\n` or `\r`, or
/// when the record has written no byte at all; the terminator is `\n`.
#[verifier::external_body]
pub(crate) fn csv_record(fields: &Vec<String>) -> (r: String)
    ensures
        r@ == csv_record_text(fields@.map_values(|f: String| f@)),
        (forall|k: int| 0 <= k < fields@.len() ==> is_plain_field(#[trigger] fields@[k]@)) && (exists|
            k: int,
        | 0 <= k < fields@.len() && #[trigger] fields@[k]@.len() > 0) ==> r@ == comma_joined(
            fields@.map_values(|f: String| f@),
        ) + seq!['\n'],
{
    let mut wtr = csv::Writer::from_writer(vec![]);
    wtr.write_record(fields).expect("a record written to memory");
    String::from_utf8(wtr.into_inner().expect("a writer over memory")).expect("UTF-8 fields")
}

} // verus!
