//! The wire format of the HTTP write endpoint: a JSON-encoded record. The
//! grammar is defined here as specification functions over character
//! sequences — an object holding exactly the five record fields, in any
//! order, with JSON string escapes, JSON integers, and `null` for the two
//! optional fields — and the executable parser is proved to return exactly
//! what the grammar says, for every input.
//!
//! The parser is strict where the format leaves room: every one of the five
//! fields must be present exactly once, unknown keys are rejected, and a
//! `\u` escape must denote a Unicode scalar value (unpaired surrogates are
//! rejected).

use vstd::prelude::*;
use vstd::string::StrSliceExecFns;

use crate::record::Record;
use crate::record::RecordView;

verus! {

/// Relies on `String::push`: appends the given character to the end of the
/// string.
pub assume_specification[ String::push ](s: &mut String, ch: char)
    ensures
        final(s)@ == old(s)@.push(ch),
;

/// Relies on `char::from_u32`: returns `Some` exactly for Unicode scalar
/// values (below the surrogate range or between it and `0x110000`), and the
/// returned character has the given value.
pub assume_specification[ char::from_u32 ](v: u32) -> (r: Option<char>)
    ensures
        r is Some <==> (v < 0xD800 || (0xE000 <= v && v < 0x110000)),
        r matches Some(c) ==> c == (v as char),
;

/// JSON insignificant whitespace.
pub open spec fn is_json_ws(c: char) -> bool {
    c == ' ' || c == '\t' || c == '\n' || c == '\r'
}

/// The first position at or after `i` holding no whitespace.
pub open spec fn skip_ws(s: Seq<char>, i: int) -> int
    decreases s.len() - i,
{
    if i < s.len() && is_json_ws(s[i]) {
        skip_ws(s, i + 1)
    } else {
        i
    }
}

pub proof fn lemma_skip_ws_bounds(s: Seq<char>, i: int)
    requires
        0 <= i <= s.len(),
    ensures
        i <= skip_ws(s, i) <= s.len(),
    decreases s.len() - i,
{
    if i < s.len() && is_json_ws(s[i]) {
        lemma_skip_ws_bounds(s, i + 1);
    }
}

/// Advances over whitespace.
fn scan_ws(s: &str, i: usize) -> (j: usize)
    requires
        i <= s@.len(),
    ensures
        j == skip_ws(s@, i as int),
        i <= j <= s@.len(),
    decreases s@.len() - i,
{
    proof {
        lemma_skip_ws_bounds(s@, i as int);
    }
    if i < s.unicode_len() {
        let c = s.get_char(i);
        if c == ' ' || c == '\t' || c == '\n' || c == '\r' {
            return scan_ws(s, i + 1);
        }
    }
    i
}

pub open spec fn is_hex_digit(c: char) -> bool {
    ('0' <= c && c <= '9') || ('a' <= c && c <= 'f') || ('A' <= c && c <= 'F')
}

/// The value of one hexadecimal digit.
pub open spec fn hex_val(c: char) -> u32 {
    if '0' <= c && c <= '9' {
        (c as u32 - '0' as u32) as u32
    } else if 'a' <= c && c <= 'f' {
        (c as u32 - 'a' as u32 + 10) as u32
    } else {
        (c as u32 - 'A' as u32 + 10) as u32
    }
}

/// The character denoted by a single-letter escape, if any.
pub open spec fn escape_char(c: char) -> Option<char> {
    if c == '"' {
        Some('"')
    } else if c == '\\' {
        Some('\\')
    } else if c == '/' {
        Some('/')
    } else if c == 'b' {
        Some('\u{0008}')
    } else if c == 'f' {
        Some('\u{000C}')
    } else if c == 'n' {
        Some('\n')
    } else if c == 'r' {
        Some('\r')
    } else if c == 't' {
        Some('\t')
    } else {
        None
    }
}

/// Parses the escape that follows a backslash, with `i` at the character
/// after the backslash. Yields the denoted character and the position after
/// the escape. A `\u` escape must give four hexadecimal digits denoting a
/// Unicode scalar value: surrogate code points are rejected.
pub open spec fn parse_escape(s: Seq<char>, i: int) -> Option<(char, int)> {
    if i >= s.len() {
        None
    } else if s[i] == 'u' {
        if i + 5 <= s.len() && is_hex_digit(s[i + 1]) && is_hex_digit(s[i + 2]) && is_hex_digit(
            s[i + 3],
        ) && is_hex_digit(s[i + 4]) {
            let v: u32 = (hex_val(s[i + 1]) * 0x1000 + hex_val(s[i + 2]) * 0x100 + hex_val(
                s[i + 3],
            ) * 0x10 + hex_val(s[i + 4])) as u32;
            if 0xD800 <= v && v < 0xE000 {
                None
            } else {
                Some(((v as char), i + 5))
            }
        } else {
            None
        }
    } else {
        match escape_char(s[i]) {
            Some(c) => Some((c, i + 1)),
            None => None,
        }
    }
}

/// Reads one hexadecimal digit.
fn scan_hex_digit(s: &str, i: usize) -> (r: Option<u32>)
    requires
        i < s@.len(),
    ensures
        r is Some <==> is_hex_digit(s@[i as int]),
        r matches Some(v) ==> v == hex_val(s@[i as int]) && v < 16,
{
    let c = s.get_char(i);
    if '0' <= c && c <= '9' {
        Some(c as u32 - '0' as u32)
    } else if 'a' <= c && c <= 'f' {
        Some(c as u32 - 'a' as u32 + 10)
    } else if 'A' <= c && c <= 'F' {
        Some(c as u32 - 'A' as u32 + 10)
    } else {
        None
    }
}

/// Parses an escape, mirroring `parse_escape`.
fn scan_escape(s: &str, i: usize) -> (r: Option<(char, usize)>)
    requires
        i <= s@.len(),
    ensures
        match r {
            Some((c, j)) => parse_escape(s@, i as int) == Some((c, j as int)) && i < j <= s@.len(),
            None => parse_escape(s@, i as int) is None,
        },
{
    if i >= s.unicode_len() {
        return None;
    }
    let c = s.get_char(i);
    if c == 'u' {
        let n = s.unicode_len();
        if n >= 5 && i <= n - 5 {
            let d1 = scan_hex_digit(s, i + 1);
            let d2 = scan_hex_digit(s, i + 2);
            let d3 = scan_hex_digit(s, i + 3);
            let d4 = scan_hex_digit(s, i + 4);
            match (d1, d2, d3, d4) {
                (Some(v1), Some(v2), Some(v3), Some(v4)) => {
                    let v: u32 = v1 * 0x1000 + v2 * 0x100 + v3 * 0x10 + v4;
                    if 0xD800 <= v && v < 0xE000 {
                        None
                    } else {
                        match char::from_u32(v) {
                            Some(ch) => Some((ch, i + 5)),
                            None => None,
                        }
                    }
                },
                _ => None,
            }
        } else {
            None
        }
    } else {
        match scan_escape_char(s, i) {
            Some(e) => Some((e, i + 1)),
            None => None,
        }
    }
}

/// Maps a single-letter escape, mirroring `escape_char`.
fn scan_escape_char(s: &str, i: usize) -> (r: Option<char>)
    requires
        i < s@.len(),
    ensures
        r == escape_char(s@[i as int]),
{
    let c = s.get_char(i);
    if c == '"' {
        Some('"')
    } else if c == '\\' {
        Some('\\')
    } else if c == '/' {
        Some('/')
    } else if c == 'b' {
        Some('\u{0008}')
    } else if c == 'f' {
        Some('\u{000C}')
    } else if c == 'n' {
        Some('\n')
    } else if c == 'r' {
        Some('\r')
    } else if c == 't' {
        Some('\t')
    } else {
        None
    }
}

/// Parses the body of a JSON string, with `i` just after the opening quote.
/// Yields the decoded contents and the position after the closing quote.
/// Unescaped control characters and unterminated strings are rejected.
pub open spec fn parse_string_body(s: Seq<char>, i: int) -> Option<(Seq<char>, int)>
    decreases s.len() - i,
{
    if i < 0 || i >= s.len() {
        None
    } else if s[i] == '"' {
        Some((Seq::empty(), i + 1))
    } else if s[i] == '\\' {
        match parse_escape(s, i + 1) {
            Some((c, j)) => match parse_string_body(s, j) {
                Some((rest, k)) => Some((seq![c] + rest, k)),
                None => None,
            },
            None => None,
        }
    } else if (s[i] as u32) < 0x20 {
        None
    } else {
        match parse_string_body(s, i + 1) {
            Some((rest, k)) => Some((seq![s[i]] + rest, k)),
            None => None,
        }
    }
}

pub proof fn lemma_string_body_bounds(s: Seq<char>, i: int)
    requires
        0 <= i,
    ensures
        parse_string_body(s, i) matches Some((c, j)) ==> i < j <= s.len(),
    decreases s.len() - i,
{
    if i < s.len() && s[i] == '\\' {
        if let Some((c, j)) = parse_escape(s, i + 1) {
            lemma_string_body_bounds(s, j);
        }
    } else if i < s.len() {
        lemma_string_body_bounds(s, i + 1);
    }
}

/// Decodes a string body, mirroring `parse_string_body`.
fn scan_string_body(s: &str, i: usize) -> (r: Option<(String, usize)>)
    requires
        i <= s@.len(),
    ensures
        match r {
            Some((content, j)) => parse_string_body(s@, i as int) == Some((content@, j as int))
                && i < j <= s@.len(),
            None => parse_string_body(s@, i as int) is None,
        },
    decreases s@.len() - i,
{
    if i >= s.unicode_len() {
        return None;
    }
    let c = s.get_char(i);
    if c == '"' {
        let content = String::new();
        proof {
            assert(content@ =~= Seq::<char>::empty());
        }
        Some((content, i + 1))
    } else if c == '\\' {
        match scan_escape(s, i + 1) {
            Some((e, j)) => match scan_string_body(s, j) {
                Some((rest, k)) => {
                    let mut content = String::new();
                    content.push(e);
                    content.append(rest.as_str());
                    proof {
                        assert(content@ =~= seq![e] + rest@);
                    }
                    Some((content, k))
                },
                None => None,
            },
            None => None,
        }
    } else if (c as u32) < 0x20 {
        None
    } else {
        match scan_string_body(s, i + 1) {
            Some((rest, k)) => {
                let mut content = String::new();
                content.push(c);
                content.append(rest.as_str());
                proof {
                    assert(content@ =~= seq![c] + rest@);
                }
                Some((content, k))
            },
            None => None,
        }
    }
}

pub open spec fn is_digit(c: char) -> bool {
    '0' <= c && c <= '9'
}

/// The value of one decimal digit.
pub open spec fn digit_val(c: char) -> int {
    c as u32 - '0' as u32
}

/// The first position at or after `i` holding no decimal digit.
pub open spec fn digits_end(s: Seq<char>, i: int) -> int
    decreases s.len() - i,
{
    if i < s.len() && is_digit(s[i]) {
        digits_end(s, i + 1)
    } else {
        i
    }
}

/// The value of the decimal digits at positions `i` (inclusive) up to `j`
/// (exclusive), most significant first.
pub open spec fn digits_val(s: Seq<char>, i: int, j: int) -> int
    decreases j - i,
{
    if i >= j {
        0
    } else {
        digits_val(s, i, j - 1) * 10 + digit_val(s[j - 1])
    }
}

pub proof fn lemma_digits_end_bounds(s: Seq<char>, i: int)
    requires
        0 <= i <= s.len(),
    ensures
        i <= digits_end(s, i) <= s.len(),
    decreases s.len() - i,
{
    if i < s.len() && is_digit(s[i]) {
        lemma_digits_end_bounds(s, i + 1);
    }
}

pub proof fn lemma_digits_run(s: Seq<char>, i: int)
    requires
        0 <= i <= s.len(),
    ensures
        forall|k: int| i <= k < digits_end(s, i) ==> is_digit(s[k]),
    decreases s.len() - i,
{
    if i < s.len() && is_digit(s[i]) {
        lemma_digits_run(s, i + 1);
    }
}

pub proof fn lemma_digits_val_nonneg(s: Seq<char>, i: int, j: int)
    requires
        i <= j,
        forall|t: int| i <= t < j ==> is_digit(s[t]),
    ensures
        digits_val(s, i, j) >= 0,
    decreases j - i,
{
    if i < j {
        lemma_digits_val_nonneg(s, i, j - 1);
    }
}

/// Appending digits never shrinks the denoted value.
pub proof fn lemma_digits_val_mono(s: Seq<char>, i: int, k: int, j: int)
    requires
        i <= k <= j,
        forall|t: int| i <= t < j ==> is_digit(s[t]),
    ensures
        digits_val(s, i, j) >= digits_val(s, i, k),
    decreases j - k,
{
    if k < j {
        lemma_digits_val_mono(s, i, k, j - 1);
        lemma_digits_val_nonneg(s, i, j - 1);
    }
}

/// Parses a JSON integer at `i`: an optional minus sign, then a digit run
/// with no superfluous leading zero, whose value fits an `i32`. Yields the
/// value and the position after the last digit.
pub open spec fn parse_int(s: Seq<char>, i: int) -> Option<(i32, int)> {
    let neg = i < s.len() && s[i] == '-';
    let p: int = if neg {
        i + 1
    } else {
        i
    };
    let j: int = digits_end(s, p);
    if j == p {
        None
    } else if s[p] == '0' && j != p + 1 {
        None
    } else {
        let m: int = digits_val(s, p, j);
        let val: int = if neg {
            -m
        } else {
            m
        };
        if val < i32::MIN as int || val > i32::MAX as int {
            None
        } else {
            Some((val as i32, j))
        }
    }
}

/// Parses an integer, mirroring `parse_int`.
fn scan_int(s: &str, i: usize) -> (r: Option<(i32, usize)>)
    requires
        i <= s@.len(),
    ensures
        match r {
            Some((v, j)) => parse_int(s@, i as int) == Some((v, j as int)) && i < j <= s@.len(),
            None => parse_int(s@, i as int) is None,
        },
{
    let n = s.unicode_len();
    let neg: bool = if i < n {
        s.get_char(i) == '-'
    } else {
        false
    };
    let p: usize = if neg {
        i + 1
    } else {
        i
    };
    proof {
        lemma_digits_end_bounds(s@, p as int);
        lemma_digits_run(s@, p as int);
    }
    let mut j: usize = p;
    loop
        invariant
            p <= j <= n,
            n == s@.len(),
            p <= s@.len(),
            digits_end(s@, p as int) == digits_end(s@, j as int),
        ensures
            p <= j <= n,
            n == s@.len(),
            j == digits_end(s@, p as int),
        decreases n - j,
    {
        if j >= n {
            proof {
                assert(digits_end(s@, j as int) == j);
            }
            break;
        }
        let c = s.get_char(j);
        if !('0' <= c && c <= '9') {
            proof {
                assert(digits_end(s@, j as int) == j);
            }
            break;
        }
        proof {
            assert(digits_end(s@, j as int) == digits_end(s@, j + 1));
        }
        j = j + 1;
    }
    if j == p {
        return None;
    }
    let c0 = s.get_char(p);
    if c0 == '0' && j != p + 1 {
        return None;
    }
    let mut mag: u64 = 0;
    let mut k: usize = p;
    loop
        invariant
            p <= k <= j <= n,
            n == s@.len(),
            i <= s@.len(),
            neg == ((i as int) < s@.len() && s@[i as int] == '-'),
            p as int == if neg {
                i as int + 1
            } else {
                i as int
            },
            p < j,
            !(s@[p as int] == '0' && j != p + 1),
            j == digits_end(s@, p as int),
            forall|t: int| p <= t < j ==> is_digit(s@[t]),
            mag == digits_val(s@, p as int, k as int),
            mag <= 0x8000_0000u64,
        ensures
            mag == digits_val(s@, p as int, j as int),
            mag <= 0x8000_0000u64,
        decreases j - k,
    {
        if k >= j {
            break;
        }
        let c = s.get_char(k);
        let d: u32 = c as u32 - '0' as u32;
        let mag2: u64 = mag * 10 + d as u64;
        proof {
            assert(digits_val(s@, p as int, k + 1) == digits_val(s@, p as int, k as int) * 10
                + digit_val(s@[k as int]));
        }
        if mag2 > 0x8000_0000u64 {
            proof {
                lemma_digits_val_mono(s@, p as int, k + 1, j as int);
                assert(digits_val(s@, p as int, j as int) >= mag2);
            }
            return None;
        }
        mag = mag2;
        k = k + 1;
    }
    if neg {
        if mag == 0x8000_0000u64 {
            Some((i32::MIN, j))
        } else {
            Some((-(mag as i32), j))
        }
    } else {
        if mag == 0x8000_0000u64 {
            return None;
        }
        Some((mag as i32, j))
    }
}

/// Bounds of a parsed integer: it consumes at least one character and stays
/// within the input.
pub proof fn lemma_parse_int_bounds(s: Seq<char>, i: int)
    requires
        0 <= i <= s.len(),
    ensures
        parse_int(s, i) matches Some((v, j)) ==> i < j <= s.len(),
{
    let neg = i < s.len() && s[i] == '-';
    let p: int = if neg {
        i + 1
    } else {
        i
    };
    lemma_digits_end_bounds(s, p);
}

/// The five record fields gathered so far while reading an object's members:
/// `None` where the member has not appeared yet. The two optional fields
/// distinguish "absent" (outer `None`) from "present as `null`" (inner
/// `None`).
pub ghost struct PartialRecordView {
    pub kind: Option<Seq<char>>,
    pub timestamp: Option<Seq<char>>,
    pub output: Option<Seq<char>>,
    pub file: Option<Option<Seq<char>>>,
    pub line: Option<Option<i32>>,
}

/// No member seen yet.
pub open spec fn empty_partial() -> PartialRecordView {
    PartialRecordView { kind: None, timestamp: None, output: None, file: None, line: None }
}

/// A full JSON string at `i`: an opening quote, then a string body.
pub open spec fn parse_json_string(s: Seq<char>, i: int) -> Option<(Seq<char>, int)> {
    if 0 <= i < s.len() && s[i] == '"' {
        parse_string_body(s, i + 1)
    } else {
        None
    }
}

/// The literal `null` stands at `i`.
pub open spec fn is_null_at(s: Seq<char>, i: int) -> bool {
    0 <= i && i + 4 <= s.len() && s[i] == 'n' && s[i + 1] == 'u' && s[i + 2] == 'l' && s[i + 3]
        == 'l'
}

/// Reads the value of the member named `key` at `i` and records it. A key
/// that is not one of the five record fields, a key seen a second time, and
/// a value of the wrong shape are all rejected.
pub open spec fn parse_field(
    s: Seq<char>,
    i: int,
    acc: PartialRecordView,
    key: Seq<char>,
) -> Option<(PartialRecordView, int)> {
    if key == "type"@ {
        if acc.kind is None {
            match parse_json_string(s, i) {
                Some((v, j)) => Some(
                    (
                        PartialRecordView {
                            kind: Some(v),
                            timestamp: acc.timestamp,
                            output: acc.output,
                            file: acc.file,
                            line: acc.line,
                        },
                        j,
                    ),
                ),
                None => None,
            }
        } else {
            None
        }
    } else if key == "timestamp"@ {
        if acc.timestamp is None {
            match parse_json_string(s, i) {
                Some((v, j)) => Some(
                    (
                        PartialRecordView {
                            kind: acc.kind,
                            timestamp: Some(v),
                            output: acc.output,
                            file: acc.file,
                            line: acc.line,
                        },
                        j,
                    ),
                ),
                None => None,
            }
        } else {
            None
        }
    } else if key == "output"@ {
        if acc.output is None {
            match parse_json_string(s, i) {
                Some((v, j)) => Some(
                    (
                        PartialRecordView {
                            kind: acc.kind,
                            timestamp: acc.timestamp,
                            output: Some(v),
                            file: acc.file,
                            line: acc.line,
                        },
                        j,
                    ),
                ),
                None => None,
            }
        } else {
            None
        }
    } else if key == "file"@ {
        if acc.file is None {
            if is_null_at(s, i) {
                Some(
                    (
                        PartialRecordView {
                            kind: acc.kind,
                            timestamp: acc.timestamp,
                            output: acc.output,
                            file: Some(None),
                            line: acc.line,
                        },
                        i + 4,
                    ),
                )
            } else {
                match parse_json_string(s, i) {
                    Some((v, j)) => Some(
                        (
                            PartialRecordView {
                                kind: acc.kind,
                                timestamp: acc.timestamp,
                                output: acc.output,
                                file: Some(Some(v)),
                                line: acc.line,
                            },
                            j,
                        ),
                    ),
                    None => None,
                }
            }
        } else {
            None
        }
    } else if key == "line"@ {
        if acc.line is None {
            if is_null_at(s, i) {
                Some(
                    (
                        PartialRecordView {
                            kind: acc.kind,
                            timestamp: acc.timestamp,
                            output: acc.output,
                            file: acc.file,
                            line: Some(None),
                        },
                        i + 4,
                    ),
                )
            } else {
                match parse_int(s, i) {
                    Some((v, j)) => Some(
                        (
                            PartialRecordView {
                                kind: acc.kind,
                                timestamp: acc.timestamp,
                                output: acc.output,
                                file: acc.file,
                                line: Some(Some(v)),
                            },
                            j,
                        ),
                    ),
                    None => None,
                }
            }
        } else {
            None
        }
    } else {
        None
    }
}

pub proof fn lemma_parse_field_bounds(s: Seq<char>, i: int, acc: PartialRecordView, key: Seq<char>)
    requires
        0 <= i <= s.len(),
    ensures
        parse_field(s, i, acc, key) matches Some((a, j)) ==> i < j <= s.len(),
{
    lemma_string_body_bounds(s, i + 1);
    lemma_parse_int_bounds(s, i);
}

/// Reads the members of the record object, with `i` at the start of a key,
/// up to and including the closing brace. Members are separated by commas;
/// a trailing comma, an unknown key and a repeated key are rejected.
pub open spec fn parse_members(
    s: Seq<char>,
    i: int,
    acc: PartialRecordView,
) -> Option<(PartialRecordView, int)>
    decreases s.len() - i,
    via parse_members_dec
{
    if i < 0 || i >= s.len() || s[i] != '"' {
        None
    } else {
        match parse_string_body(s, i + 1) {
            None => None,
            Some((key, j)) => {
                let c: int = skip_ws(s, j);
                if c >= s.len() || s[c] != ':' {
                    None
                } else {
                    let v: int = skip_ws(s, c + 1);
                    match parse_field(s, v, acc, key) {
                        None => None,
                        Some((acc2, w)) => {
                            let e: int = skip_ws(s, w);
                            if e < s.len() && s[e] == ',' {
                                parse_members(s, skip_ws(s, e + 1), acc2)
                            } else if e < s.len() && s[e] == '}' {
                                Some((acc2, e + 1))
                            } else {
                                None
                            }
                        },
                    }
                }
            },
        }
    }
}

#[via_fn]
proof fn parse_members_dec(s: Seq<char>, i: int, acc: PartialRecordView) {
    if 0 <= i && i < s.len() && s[i] == '"' {
        lemma_string_body_bounds(s, i + 1);
        if let Some((key, j)) = parse_string_body(s, i + 1) {
            lemma_skip_ws_bounds(s, j);
            let c: int = skip_ws(s, j);
            if c < s.len() && s[c] == ':' {
                lemma_skip_ws_bounds(s, c + 1);
                let v: int = skip_ws(s, c + 1);
                lemma_parse_field_bounds(s, v, acc, key);
                if let Some((acc2, w)) = parse_field(s, v, acc, key) {
                    lemma_skip_ws_bounds(s, w);
                    let e: int = skip_ws(s, w);
                    if e < s.len() && s[e] == ',' {
                        lemma_skip_ws_bounds(s, e + 1);
                    }
                }
            }
        }
    }
}

/// A record is complete when all five members appeared.
pub open spec fn complete_record(acc: PartialRecordView) -> Option<RecordView> {
    if acc.kind is Some && acc.timestamp is Some && acc.output is Some && acc.file is Some
        && acc.line is Some {
        Some(
            RecordView {
                kind: acc.kind->0,
                timestamp: acc.timestamp->0,
                output: acc.output->0,
                file: acc.file->0,
                line: acc.line->0,
            },
        )
    } else {
        None
    }
}

/// The executable counterpart of `PartialRecordView`.
struct PartialRecord {
    kind: Option<String>,
    timestamp: Option<String>,
    output: Option<String>,
    file: Option<Option<String>>,
    line: Option<Option<i32>>,
}

impl View for PartialRecord {
    type V = PartialRecordView;

    closed spec fn view(&self) -> PartialRecordView {
        PartialRecordView {
            kind: match self.kind {
                Some(v) => Some(v@),
                None => None,
            },
            timestamp: match self.timestamp {
                Some(v) => Some(v@),
                None => None,
            },
            output: match self.output {
                Some(v) => Some(v@),
                None => None,
            },
            file: match self.file {
                Some(Some(v)) => Some(Some(v@)),
                Some(None) => Some(None),
                None => None,
            },
            line: self.line,
        }
    }
}

/// Decodes a full JSON string, mirroring `parse_json_string`.
fn scan_json_string(s: &str, i: usize) -> (r: Option<(String, usize)>)
    requires
        i <= s@.len(),
    ensures
        match r {
            Some((v, j)) => parse_json_string(s@, i as int) == Some((v@, j as int)) && i < j
                <= s@.len(),
            None => parse_json_string(s@, i as int) is None,
        },
{
    if i < s.unicode_len() {
        if s.get_char(i) == '"' {
            return scan_string_body(s, i + 1);
        }
    }
    None
}

/// Tests for the literal `null`, mirroring `is_null_at`.
fn null_at(s: &str, i: usize) -> (r: bool)
    requires
        i <= s@.len(),
    ensures
        r == is_null_at(s@, i as int),
{
    let n = s.unicode_len();
    if n >= 4 && i <= n - 4 {
        s.get_char(i) == 'n' && s.get_char(i + 1) == 'u' && s.get_char(i + 2) == 'l' && s.get_char(
            i + 3,
        ) == 'l'
    } else {
        false
    }
}

/// Reads one member's value, mirroring `parse_field`.
fn scan_field(s: &str, i: usize, acc: PartialRecord, key: &String) -> (r: Option<
    (PartialRecord, usize),
>)
    requires
        i <= s@.len(),
        s@.len() <= usize::MAX,
    ensures
        match r {
            Some((a, j)) => parse_field(s@, i as int, acc@, key@) == Some((a@, j as int)) && i < j
                <= s@.len(),
            None => parse_field(s@, i as int, acc@, key@) is None,
        },
{
    if *key == String::from_str("type") {
        if acc.kind.is_some() {
            return None;
        }
        match scan_json_string(s, i) {
            Some((v, j)) => Some(
                (
                    PartialRecord {
                        kind: Some(v),
                        timestamp: acc.timestamp,
                        output: acc.output,
                        file: acc.file,
                        line: acc.line,
                    },
                    j,
                ),
            ),
            None => None,
        }
    } else if *key == String::from_str("timestamp") {
        if acc.timestamp.is_some() {
            return None;
        }
        match scan_json_string(s, i) {
            Some((v, j)) => Some(
                (
                    PartialRecord {
                        kind: acc.kind,
                        timestamp: Some(v),
                        output: acc.output,
                        file: acc.file,
                        line: acc.line,
                    },
                    j,
                ),
            ),
            None => None,
        }
    } else if *key == String::from_str("output") {
        if acc.output.is_some() {
            return None;
        }
        match scan_json_string(s, i) {
            Some((v, j)) => Some(
                (
                    PartialRecord {
                        kind: acc.kind,
                        timestamp: acc.timestamp,
                        output: Some(v),
                        file: acc.file,
                        line: acc.line,
                    },
                    j,
                ),
            ),
            None => None,
        }
    } else if *key == String::from_str("file") {
        if acc.file.is_some() {
            return None;
        }
        if null_at(s, i) {
            return Some(
                (
                    PartialRecord {
                        kind: acc.kind,
                        timestamp: acc.timestamp,
                        output: acc.output,
                        file: Some(None),
                        line: acc.line,
                    },
                    i + 4,
                ),
            );
        }
        match scan_json_string(s, i) {
            Some((v, j)) => Some(
                (
                    PartialRecord {
                        kind: acc.kind,
                        timestamp: acc.timestamp,
                        output: acc.output,
                        file: Some(Some(v)),
                        line: acc.line,
                    },
                    j,
                ),
            ),
            None => None,
        }
    } else if *key == String::from_str("line") {
        if acc.line.is_some() {
            return None;
        }
        if null_at(s, i) {
            return Some(
                (
                    PartialRecord {
                        kind: acc.kind,
                        timestamp: acc.timestamp,
                        output: acc.output,
                        file: acc.file,
                        line: Some(None),
                    },
                    i + 4,
                ),
            );
        }
        match scan_int(s, i) {
            Some((v, j)) => Some(
                (
                    PartialRecord {
                        kind: acc.kind,
                        timestamp: acc.timestamp,
                        output: acc.output,
                        file: acc.file,
                        line: Some(Some(v)),
                    },
                    j,
                ),
            ),
            None => None,
        }
    } else {
        None
    }
}

/// Reads the object's members, mirroring `parse_members`.
fn scan_members(s: &str, i: usize, acc: PartialRecord) -> (r: Option<(PartialRecord, usize)>)
    requires
        i <= s@.len(),
    ensures
        match r {
            Some((a, j)) => parse_members(s@, i as int, acc@) == Some((a@, j as int)) && i < j
                <= s@.len(),
            None => parse_members(s@, i as int, acc@) is None,
        },
    decreases s@.len() - i,
{
    let n = s.unicode_len();
    if i >= n {
        return None;
    }
    if s.get_char(i) != '"' {
        return None;
    }
    match scan_string_body(s, i + 1) {
        None => None,
        Some((key, j)) => {
            let c = scan_ws(s, j);
            if c >= n {
                return None;
            }
            if s.get_char(c) != ':' {
                return None;
            }
            let v = scan_ws(s, c + 1);
            match scan_field(s, v, acc, &key) {
                None => None,
                Some((acc2, w)) => {
                    let e = scan_ws(s, w);
                    if e < n {
                        let ce = s.get_char(e);
                        if ce == ',' {
                            let nx = scan_ws(s, e + 1);
                            return scan_members(s, nx, acc2);
                        }
                        if ce == '}' {
                            return Some((acc2, e + 1));
                        }
                        return None;
                    }
                    None
                },
            }
        },
    }
}

/// The wire format of one record: optional whitespace, an object holding
/// exactly the five members `type`, `timestamp`, `output`, `file` and
/// `line`, each exactly once, in any order, then optional whitespace up to
/// the very end of the input.
pub open spec fn parse_record(s: Seq<char>) -> Option<RecordView> {
    let i: int = skip_ws(s, 0);
    if i >= s.len() || s[i] != '{' {
        None
    } else {
        let j: int = skip_ws(s, i + 1);
        match parse_members(s, j, empty_partial()) {
            None => None,
            Some((acc, k)) => {
                let e: int = skip_ws(s, k);
                if e != s.len() {
                    None
                } else {
                    complete_record(acc)
                }
            },
        }
    }
}

/// Decodes one record from its wire form, mirroring `parse_record`: `Some`
/// with the decoded record exactly when the input is a well-formed
/// JSON-encoded record, `None` otherwise.
pub fn parse_record_str(s: &str) -> (r: Option<Record>)
    ensures
        match r {
            Some(rec) => parse_record(s@) == Some(rec@),
            None => parse_record(s@) is None,
        },
{
    let n = s.unicode_len();
    let i = scan_ws(s, 0);
    if i >= n {
        return None;
    }
    if s.get_char(i) != '{' {
        return None;
    }
    let j = scan_ws(s, i + 1);
    let acc0 = PartialRecord { kind: None, timestamp: None, output: None, file: None, line: None };
    proof {
        assert(acc0@ == empty_partial());
    }
    match scan_members(s, j, acc0) {
        None => None,
        Some((acc, k)) => {
            let e = scan_ws(s, k);
            if e != n {
                return None;
            }
            match (acc.kind, acc.timestamp, acc.output, acc.file, acc.line) {
                (Some(kind), Some(timestamp), Some(output), Some(file), Some(line)) => Some(
                    Record { kind, timestamp, output, file, line },
                ),
                _ => None,
            }
        },
    }
}

} // verus!
