//! Text formatting utilities: decimal rendering of integers, grouped and
//! fixed-point number formats, human-readable sizes and durations, string
//! truncation and a rough token count.
//!
//! Fractional values are carried as scaled integers (hundredths,
//! thousandths, millionths), so every formatter here is exact integer
//! arithmetic with an exact contract.

use vstd::prelude::*;
use vstd::string::StringExecFns;
use vstd::string::StringSliceAdditionalSpecFns;

verus! {

/// The decimal digit character for one digit value.
pub open spec fn dec_digit(d: int) -> char {
    if d == 0 {
        '0'
    } else if d == 1 {
        '1'
    } else if d == 2 {
        '2'
    } else if d == 3 {
        '3'
    } else if d == 4 {
        '4'
    } else if d == 5 {
        '5'
    } else if d == 6 {
        '6'
    } else if d == 7 {
        '7'
    } else if d == 8 {
        '8'
    } else {
        '9'
    }
}

/// The decimal rendering of a non-negative integer, without sign or
/// leading zeros.
pub open spec fn dec_str(n: int) -> Seq<char>
    decreases n,
{
    if n < 10 {
        seq![dec_digit(n)]
    } else {
        dec_str(n / 10).push(dec_digit(n % 10))
    }
}

/// The single-character string for one digit value.
fn digit_str(d: u64) -> (r: &'static str)
    requires
        d < 10,
    ensures
        r@ == seq![dec_digit(d as int)],
{
    proof {
        reveal_strlit("0");
        reveal_strlit("1");
        reveal_strlit("2");
        reveal_strlit("3");
        reveal_strlit("4");
        reveal_strlit("5");
        reveal_strlit("6");
        reveal_strlit("7");
        reveal_strlit("8");
        reveal_strlit("9");
    }
    let r = match d {
        0 => "0",
        1 => "1",
        2 => "2",
        3 => "3",
        4 => "4",
        5 => "5",
        6 => "6",
        7 => "7",
        8 => "8",
        _ => "9",
    };
    proof {
        assert(r@ =~= seq![dec_digit(d as int)]);
    }
    r
}

/// Render a non-negative integer in decimal.
pub fn u64_to_string(n: u64) -> (r: String)
    ensures
        r@ == dec_str(n as int),
    decreases n,
{
    if n < 10 {
        String::from_str(digit_str(n))
    } else {
        let mut r = u64_to_string(n / 10);
        r.append(digit_str(n % 10));
        proof {
            assert(dec_str((n / 10) as int) + seq![dec_digit((n % 10) as int)] =~= dec_str(
                (n / 10) as int,
            ).push(dec_digit((n % 10) as int)));
        }
        r
    }
}

/// The decimal rendering padded on the left with zeros to two places.
pub open spec fn dec_pad2(n: int) -> Seq<char> {
    if n < 10 {
        seq!['0'].push(dec_digit(n))
    } else {
        dec_str(n)
    }
}

/// Render a value below one hundred with exactly two digits.
fn pad2(n: u64) -> (r: String)
    requires
        n < 100,
    ensures
        r@ == dec_pad2(n as int),
{
    if n < 10 {
        proof {
            reveal_strlit("0");
        }
        let mut r = String::from_str("0");
        r.append(digit_str(n));
        proof {
            assert("0"@ + seq![dec_digit(n as int)] =~= seq!['0'].push(dec_digit(n as int)));
        }
        r
    } else {
        u64_to_string(n)
    }
}

/// The decimal rendering padded on the left with zeros to three places.
pub open spec fn dec_pad3(n: int) -> Seq<char> {
    if n < 10 {
        seq!['0', '0'].push(dec_digit(n))
    } else if n < 100 {
        seq!['0'] + dec_str(n)
    } else {
        dec_str(n)
    }
}

/// Render a value below one thousand with exactly three digits.
fn pad3(n: u64) -> (r: String)
    requires
        n < 1000,
    ensures
        r@ == dec_pad3(n as int),
{
    if n < 10 {
        proof {
            reveal_strlit("00");
        }
        let mut r = String::from_str("00");
        r.append(digit_str(n));
        proof {
            assert("00"@ + seq![dec_digit(n as int)] =~= seq!['0', '0'].push(dec_digit(n as int)));
        }
        r
    } else if n < 100 {
        proof {
            reveal_strlit("0");
        }
        let mut r = String::from_str("0");
        let rest = u64_to_string(n);
        r.append(rest.as_str());
        r
    } else {
        u64_to_string(n)
    }
}

/// A number with commas as thousands separators.
pub open spec fn dec_grouped(n: int) -> Seq<char>
    decreases n,
{
    if n < 1000 {
        dec_str(n)
    } else {
        dec_grouped(n / 1000) + seq![','] + dec_pad3(n % 1000)
    }
}

/// Format a number with commas as thousands separators.
pub fn format_number(num: usize) -> (r: String)
    ensures
        r@ == dec_grouped(num as int),
    decreases num,
{
    if num < 1000 {
        u64_to_string(num as u64)
    } else {
        let mut r = format_number(num / 1000);
        proof {
            reveal_strlit(",");
        }
        r.append(",");
        let low = pad3((num % 1000) as u64);
        r.append(low.as_str());
        proof {
            assert(","@ =~= seq![',']);
        }
        r
    }
}

/// A duration in seconds rendered as hours, minutes and seconds: the
/// hour part appears only when non-zero, the minute part only when the
/// duration reaches one minute.
pub open spec fn spec_duration(seconds: int) -> Seq<char> {
    let h = seconds / 3600;
    let m = (seconds % 3600) / 60;
    let s = seconds % 60;
    if h > 0 {
        dec_str(h) + "h "@ + dec_str(m) + "m "@ + dec_str(s) + "s"@
    } else if m > 0 {
        dec_str(m) + "m "@ + dec_str(s) + "s"@
    } else {
        dec_str(s) + "s"@
    }
}

/// Format a duration in seconds as a human-readable string.
pub fn format_duration(seconds: u64) -> (r: String)
    ensures
        r@ == spec_duration(seconds as int),
{
    let hours = seconds / 3600;
    let minutes = (seconds % 3600) / 60;
    let secs = seconds % 60;
    if hours > 0 {
        let mut r = u64_to_string(hours);
        r.append("h ");
        let m = u64_to_string(minutes);
        r.append(m.as_str());
        r.append("m ");
        let s = u64_to_string(secs);
        r.append(s.as_str());
        r.append("s");
        r
    } else if minutes > 0 {
        let mut r = u64_to_string(minutes);
        r.append("m ");
        let s = u64_to_string(secs);
        r.append(s.as_str());
        r.append("s");
        r
    } else {
        let mut r = u64_to_string(secs);
        r.append("s");
        r
    }
}

/// Division rounded to the nearest integer, ties to the even neighbour
/// (the rounding that binary floating-point display uses).
pub open spec fn round_half_even(num: int, den: int) -> int {
    let q = num / den;
    let r = num % den;
    if 2 * r < den {
        q
    } else if 2 * r > den {
        q + 1
    } else if q % 2 == 0 {
        q
    } else {
        q + 1
    }
}

/// A value in hundredths rendered with two decimal places.
pub open spec fn dec_two_places(h: int) -> Seq<char> {
    dec_str(h / 100) + seq!['.'] + dec_pad2(h % 100)
}

/// The byte-size unit bucket: 0 for bytes up to 4 for terabytes.
pub open spec fn size_bucket(size: int) -> int {
    if size < 1024 {
        0
    } else if size < 1048576 {
        1
    } else if size < 1073741824 {
        2
    } else if size < 1099511627776 {
        3
    } else {
        4
    }
}

/// The unit suffix of each bucket.
pub open spec fn size_unit(bucket: int) -> Seq<char> {
    if bucket == 0 {
        "B"@
    } else if bucket == 1 {
        "KB"@
    } else if bucket == 2 {
        "MB"@
    } else if bucket == 3 {
        "GB"@
    } else {
        "TB"@
    }
}

/// A byte count rendered in its largest unit below 1024, with two
/// decimal places: the size scaled by its bucket's power of 1024,
/// rounded to hundredths with ties to even.
pub open spec fn spec_human_size(size: int) -> Seq<char> {
    let b = size_bucket(size);
    let den: int = if b == 0 {
        1
    } else if b == 1 {
        1024
    } else if b == 2 {
        1048576
    } else if b == 3 {
        1073741824
    } else {
        1099511627776
    };
    dec_two_places(round_half_even(size * 100, den)) + seq![' '] + size_unit(b)
}

/// Render a value in hundredths with two decimal places.
pub fn two_places(h: u64) -> (r: String)
    ensures
        r@ == dec_two_places(h as int),
{
    let mut r = u64_to_string(h / 100);
    proof {
        reveal_strlit(".");
        assert("."@ =~= seq!['.']);
    }
    r.append(".");
    let frac = pad2(h % 100);
    r.append(frac.as_str());
    r
}

/// Convert a byte count to a human-readable size such as `1.46 KB`.
pub fn human_readable_size(size: u64) -> (r: String)
    ensures
        r@ == spec_human_size(size as int),
{
    let (den, unit): (u64, &'static str) = if size < 1024 {
        (1, "B")
    } else if size < 1048576 {
        (1024, "KB")
    } else if size < 1073741824 {
        (1048576, "MB")
    } else if size < 1099511627776 {
        (1073741824, "GB")
    } else {
        (1099511627776, "TB")
    };
    let num: u128 = size as u128 * 100;
    let q: u128 = num / den as u128;
    let rem: u128 = num % den as u128;
    let rounded: u128 = if 2 * rem < den as u128 {
        q
    } else if 2 * rem > den as u128 {
        q + 1
    } else if q % 2 == 0 {
        q
    } else {
        q + 1
    };
    proof {
        vstd::arithmetic::div_mod::lemma_div_is_ordered(
            size as int * 100,
            u64::MAX as int * 100,
            den as int,
        );
        vstd::arithmetic::div_mod::lemma_div_is_ordered_by_denominator(
            u64::MAX as int * 100,
            1,
            den as int,
        );
    }
    let h: u64 = rounded as u64;
    let mut r = two_places(h);
    proof {
        reveal_strlit(" ");
        assert(" "@ =~= seq![' ']);
    }
    r.append(" ");
    r.append(unit);
    r
}

/// The truncation of a string to roughly `max_length` bytes: a string of
/// at most `max_length` bytes is kept whole; a longer one keeps its
/// leading characters and ends in an ellipsis.
pub open spec fn spec_truncated(s: Seq<char>, byte_len: int, max_length: int) -> Seq<char> {
    if byte_len <= max_length {
        s
    } else {
        let keep = if max_length - 4 < s.len() {
            max_length - 4
        } else {
            s.len() as int
        };
        s.take(keep) + "..."@
    }
}

/// Truncate a string, adding an ellipsis if it was truncated.
pub fn truncate_string(input: &str, max_length: usize) -> (r: String)
    requires
        input.spec_bytes().len() <= usize::MAX,
        input.spec_bytes().len() > max_length ==> max_length >= 4,
    ensures
        r@ == spec_truncated(input@, input.spec_bytes().len() as int, max_length as int),
{
    if input.len() <= max_length {
        let r = input.to_owned();
        proof {
            assert(r@ == spec_truncated(input@, input.spec_bytes().len() as int, max_length as int));
        }
        r
    } else {
        let n = input.unicode_len();
        let keep = if max_length - 4 < n {
            max_length - 4
        } else {
            n
        };
        let mut r = String::from_str(input.substring_char(0, keep));
        proof {
            assert(input@.subrange(0, keep as int) =~= input@.take(keep as int));
        }
        r.append("...");
        proof {
            assert(r@ == spec_truncated(input@, input.spec_bytes().len() as int, max_length as int));
        }
        r
    }
}

/// Unicode whitespace characters, as Rust's whitespace test counts them.
pub open spec fn is_ws_char(c: char) -> bool {
    let u = c as u32;
    u == 0x9 || u == 0xA || u == 0xB || u == 0xC || u == 0xD || u == 0x20 || u == 0x85 || u
        == 0xA0 || u == 0x1680 || (0x2000 <= u && u <= 0x200A) || u == 0x2028 || u == 0x2029 || u
        == 0x202F || u == 0x205F || u == 0x3000
}

/// Runtime check for a whitespace character.
pub fn is_whitespace_char(c: char) -> (r: bool)
    ensures
        r == is_ws_char(c),
{
    let u = c as u32;
    u == 0x9 || u == 0xA || u == 0xB || u == 0xC || u == 0xD || u == 0x20 || u == 0x85 || u
        == 0xA0 || u == 0x1680 || (0x2000 <= u && u <= 0x200A) || u == 0x2028 || u == 0x2029 || u
        == 0x202F || u == 0x205F || u == 0x3000
}

/// ASCII punctuation characters.
pub open spec fn is_ascii_punct_char(c: char) -> bool {
    let u = c as u32;
    (0x21 <= u && u <= 0x2F) || (0x3A <= u && u <= 0x40) || (0x5B <= u && u <= 0x60) || (0x7B <= u
        && u <= 0x7E)
}

/// Runtime check for an ASCII punctuation character.
pub fn is_punct_char(c: char) -> (r: bool)
    ensures
        r == is_ascii_punct_char(c),
{
    let u = c as u32;
    (0x21 <= u && u <= 0x2F) || (0x3A <= u && u <= 0x40) || (0x5B <= u && u <= 0x60) || (0x7B <= u
        && u <= 0x7E)
}

/// A character that separates tokens: whitespace or ASCII punctuation.
pub open spec fn is_token_delim(c: char) -> bool {
    is_ws_char(c) || is_ascii_punct_char(c)
}

/// The number of maximal runs of non-delimiter characters among the
/// first `n` characters: a run starts at a non-delimiter that is first
/// overall or follows a delimiter.
pub open spec fn seg_count_upto(s: Seq<char>, delim: spec_fn(char) -> bool, n: int) -> int
    decreases n,
{
    if n <= 0 {
        0
    } else {
        seg_count_upto(s, delim, n - 1) + (if !delim(s[n - 1]) && (n == 1 || delim(s[n - 2])) {
            1int
        } else {
            0int
        })
    }
}

/// The number of maximal runs of non-delimiter characters.
pub open spec fn seg_count(s: Seq<char>, delim: spec_fn(char) -> bool) -> int {
    seg_count_upto(s, delim, s.len() as int)
}

/// There are never more runs than characters.
proof fn lemma_seg_count_le(s: Seq<char>, delim: spec_fn(char) -> bool, n: int)
    requires
        0 <= n <= s.len(),
    ensures
        seg_count_upto(s, delim, n) <= n,
        0 <= seg_count_upto(s, delim, n),
    decreases n,
{
    if n > 0 {
        lemma_seg_count_le(s, delim, n - 1);
    }
}

/// Count the maximal runs of characters that are neither whitespace nor
/// (when `punct_too` is set) ASCII punctuation.
fn count_segments(text: &str, punct_too: bool) -> (count: usize)
    ensures
        punct_too ==> count == seg_count(text@, |c: char| is_token_delim(c)),
        !punct_too ==> count == seg_count(text@, |c: char| is_ws_char(c)),
        count <= text@.len(),
{
    let ghost delim: spec_fn(char) -> bool = if punct_too {
        |c: char| is_token_delim(c)
    } else {
        |c: char| is_ws_char(c)
    };
    let n = text.unicode_len();
    let mut count: usize = 0;
    let mut prev_delim: bool = true;
    let mut i: usize = 0;
    while i < n
        invariant
            n == text@.len(),
            i <= n,
            count as int == seg_count_upto(text@, delim, i as int),
            prev_delim == (i == 0 || delim(text@[i as int - 1])),
            count <= i,
            punct_too ==> delim == (|c: char| is_token_delim(c)),
            !punct_too ==> delim == (|c: char| is_ws_char(c)),
        decreases n - i,
    {
        let c = text.get_char(i);
        let d = if punct_too {
            is_whitespace_char(c) || is_punct_char(c)
        } else {
            is_whitespace_char(c)
        };
        if !d && prev_delim {
            count += 1;
        }
        prev_delim = d;
        i += 1;
    }
    count
}

/// The rough token estimate for a run count: the count scaled by 13/10,
/// rounded to the nearest integer with halves up.
pub open spec fn spec_token_estimate(runs: int) -> int {
    (13 * runs + 5) / 10
}

/// Count tokens in a string (approximation): the maximal runs of
/// characters that are neither whitespace nor ASCII punctuation, scaled
/// by 13/10 and rounded to the nearest integer.
pub fn count_tokens(text: &str) -> (r: usize)
    requires
        13 * text@.len() + 5 <= usize::MAX * 10,
    ensures
        r == spec_token_estimate(seg_count(text@, |c: char| is_token_delim(c))),
{
    let runs = count_segments(text, true);
    proof {
        lemma_seg_count_le(text@, |c: char| is_token_delim(c), text@.len() as int);
        vstd::arithmetic::div_mod::lemma_div_is_ordered(
            13 * runs as int + 5,
            13 * text@.len() as int + 5,
            10,
        );
        vstd::arithmetic::div_mod::lemma_div_is_ordered(
            0,
            13 * runs as int + 5,
            10,
        );
        vstd::arithmetic::div_mod::lemma_div_is_ordered(
            13 * text@.len() as int + 5,
            usize::MAX as int * 10,
            10,
        );
        vstd::arithmetic::div_mod::lemma_div_by_multiple(usize::MAX as int, 10);
    }
    let wide: u128 = (13u128 * runs as u128 + 5) / 10;
    wide as usize
}

/// Count the maximal runs of non-whitespace characters, scaled by 13/10
/// and rounded to the nearest integer: the rough token estimate used for
/// plain word counts.
pub fn count_words_estimate(text: &str) -> (r: usize)
    requires
        13 * text@.len() + 5 <= usize::MAX * 10,
    ensures
        r == spec_token_estimate(seg_count(text@, |c: char| is_ws_char(c))),
{
    let runs = count_segments(text, false);
    proof {
        lemma_seg_count_le(text@, |c: char| is_ws_char(c), text@.len() as int);
        vstd::arithmetic::div_mod::lemma_div_is_ordered(
            13 * runs as int + 5,
            13 * text@.len() as int + 5,
            10,
        );
        vstd::arithmetic::div_mod::lemma_div_is_ordered(
            0,
            13 * runs as int + 5,
            10,
        );
        vstd::arithmetic::div_mod::lemma_div_is_ordered(
            13 * text@.len() as int + 5,
            usize::MAX as int * 10,
            10,
        );
        vstd::arithmetic::div_mod::lemma_div_by_multiple(usize::MAX as int, 10);
    }
    let wide: u128 = (13u128 * runs as u128 + 5) / 10;
    wide as usize
}

/// Whether two strings hold the same characters.
pub fn str_eq(a: &str, b: &str) -> (r: bool)
    ensures
        r == (a@ == b@),
{
    let sa = String::from_str(a);
    let sb = String::from_str(b);
    sa.eq(&sb)
}

/// The ASCII-lowercase counterpart of a character: letters `A` to `Z`
/// map to their lowercase forms, everything else is unchanged.
pub open spec fn spec_ascii_lower_char(c: char) -> char {
    if 0x41 <= c as u32 && c as u32 <= 0x5A {
        ((c as u8) + 0x20) as char
    } else {
        c
    }
}

/// Lower one character to ASCII lowercase.
pub fn ascii_lower_char(c: char) -> (r: char)
    ensures
        r == spec_ascii_lower_char(c),
{
    let u = c as u32;
    if 0x41 <= u && u <= 0x5A {
        ((c as u8) + 0x20) as char
    } else {
        c
    }
}

/// A string lowered to ASCII lowercase, character by character.
pub open spec fn spec_ascii_lower(s: Seq<char>) -> Seq<char> {
    s.map_values(|c: char| spec_ascii_lower_char(c))
}

/// Whether two strings are equal up to ASCII case.
pub fn eq_ignore_ascii_case(a: &str, b: &str) -> (r: bool)
    ensures
        r == (spec_ascii_lower(a@) == spec_ascii_lower(b@)),
{
    let na = a.unicode_len();
    let nb = b.unicode_len();
    if na != nb {
        proof {
            assert(spec_ascii_lower(a@).len() == a@.len());
            assert(spec_ascii_lower(b@).len() == b@.len());
        }
        return false;
    }
    let mut i: usize = 0;
    while i < na
        invariant
            na == a@.len(),
            na == b@.len(),
            i <= na,
            forall|j: int|
                0 <= j < i ==> spec_ascii_lower_char(a@[j]) == spec_ascii_lower_char(b@[j]),
        decreases na - i,
    {
        let ca = ascii_lower_char(a.get_char(i));
        let cb = ascii_lower_char(b.get_char(i));
        if ca != cb {
            proof {
                assert(spec_ascii_lower(a@)[i as int] != spec_ascii_lower(b@)[i as int]);
            }
            return false;
        }
        i += 1;
    }
    proof {
        assert(spec_ascii_lower(a@) =~= spec_ascii_lower(b@));
    }
    true
}

/// Whether every character of the string is whitespace.
pub open spec fn spec_blank(s: Seq<char>) -> bool {
    forall|i: int| 0 <= i < s.len() ==> is_ws_char(#[trigger] s[i])
}

/// Whether a string is empty or holds only whitespace.
pub fn is_blank(s: &str) -> (r: bool)
    ensures
        r == spec_blank(s@),
{
    let n = s.unicode_len();
    let mut i: usize = 0;
    while i < n
        invariant
            n == s@.len(),
            i <= n,
            forall|j: int| 0 <= j < i ==> is_ws_char(#[trigger] s@[j]),
        decreases n - i,
    {
        if !is_whitespace_char(s.get_char(i)) {
            return false;
        }
        i += 1;
    }
    true
}

/// The number of leading whitespace characters.
pub open spec fn spec_trim_start(s: Seq<char>) -> int
    decreases s.len(),
{
    if s.len() == 0 {
        0
    } else if is_ws_char(s[0]) {
        1 + spec_trim_start(s.drop_first())
    } else {
        0
    }
}

/// The length of the string with its trailing whitespace removed.
pub open spec fn spec_trim_end(s: Seq<char>) -> int
    decreases s.len(),
{
    if s.len() == 0 {
        0
    } else if is_ws_char(s.last()) {
        spec_trim_end(s.drop_last())
    } else {
        s.len() as int
    }
}

/// The string with leading and trailing whitespace removed; a string of
/// nothing but whitespace trims to the empty string.
pub open spec fn spec_trim(s: Seq<char>) -> Seq<char> {
    if spec_trim_end(s) <= spec_trim_start(s) {
        Seq::empty()
    } else {
        s.subrange(spec_trim_start(s), spec_trim_end(s))
    }
}

/// A prefix of whitespace, bounded by a non-whitespace character or the
/// end, is exactly the leading-whitespace count.
proof fn lemma_trim_start_at(s: Seq<char>, i: int)
    requires
        0 <= i <= s.len(),
        forall|j: int| 0 <= j < i ==> is_ws_char(#[trigger] s[j]),
        i < s.len() ==> !is_ws_char(s[i]),
    ensures
        spec_trim_start(s) == i,
    decreases s.len(),
{
    if s.len() > 0 {
        if i == 0 {
        } else {
            assert(is_ws_char(s[0]));
            lemma_trim_start_at(s.drop_first(), i - 1);
        }
    }
}

/// A suffix of whitespace, bounded by a non-whitespace character or the
/// start, pins down the trimmed length.
proof fn lemma_trim_end_at(s: Seq<char>, i: int)
    requires
        0 <= i <= s.len(),
        forall|j: int| i <= j < s.len() ==> is_ws_char(#[trigger] s[j]),
        i > 0 ==> !is_ws_char(s[i - 1]),
    ensures
        spec_trim_end(s) == i,
    decreases s.len(),
{
    if s.len() > 0 {
        if i == s.len() {
            assert(!is_ws_char(s.last()));
        } else {
            assert(is_ws_char(s.last()));
            lemma_trim_end_at(s.drop_last(), i);
        }
    }
}

/// The string with leading and trailing whitespace removed.
pub fn trim_str<'a>(s: &'a str) -> (r: &'a str)
    ensures
        r@ == spec_trim(s@),
        r@.len() <= s@.len(),
{
    let n = s.unicode_len();
    let mut start: usize = 0;
    while start < n && is_whitespace_char(s.get_char(start))
        invariant
            n == s@.len(),
            start <= n,
            forall|j: int| 0 <= j < start ==> is_ws_char(#[trigger] s@[j]),
        decreases n - start,
    {
        start += 1;
    }
    let mut end: usize = n;
    while end > start && is_whitespace_char(s.get_char(end - 1))
        invariant
            n == s@.len(),
            start <= end <= n,
            forall|j: int| 0 <= j < start ==> is_ws_char(#[trigger] s@[j]),
            start < s@.len() ==> !is_ws_char(s@[start as int]),
            start < s@.len() ==> end > start,
            forall|j: int| end <= j < s@.len() ==> is_ws_char(#[trigger] s@[j]),
        decreases end,
    {
        end -= 1;
    }
    proof {
        if end == start {
            assert(start == s@.len());
            lemma_trim_start_at(s@, s@.len() as int);
            lemma_trim_end_at(s@, 0);
        } else {
            lemma_trim_start_at(s@, start as int);
            lemma_trim_end_at(s@, end as int);
        }
    }
    let r = s.substring_char(start, end);
    proof {
        if end == start {
            assert(r@ =~= spec_trim(s@));
        } else {
            assert(r@ =~= spec_trim(s@));
        }
    }
    r
}

/// Whether `p` occurs as a contiguous run of characters inside `s`.
pub open spec fn spec_contains_seq(s: Seq<char>, p: Seq<char>) -> bool {
    exists|i: int| 0 <= i <= s.len() - p.len() && #[trigger] s.subrange(i, i + p.len()) == p
}

/// Whether the characters of `pat` occur contiguously inside `s`.
pub fn contains_str(s: &str, pat: &str) -> (r: bool)
    ensures
        r == spec_contains_seq(s@, pat@),
{
    let n = s.unicode_len();
    let m = pat.unicode_len();
    if m > n {
        return false;
    }
    if m == 0 {
        proof {
            assert(s@.subrange(0, 0 + pat@.len() as int) =~= pat@);
        }
        return true;
    }
    let mut i: usize = 0;
    while i <= n - m
        invariant
            n == s@.len(),
            m == pat@.len(),
            m <= n,
            i <= n - m + 1,
            1 <= m,
            forall|k: int| 0 <= k < i ==> #[trigger] s@.subrange(k, k + m) != pat@,
        decreases n - i,
    {
        let mut j: usize = 0;
        let mut matched = true;
        while j < m
            invariant
                n == s@.len(),
                m == pat@.len(),
                m <= n,
                i <= n - m,
                j <= m,
                matched ==> forall|l: int| 0 <= l < j ==> s@[i + l] == pat@[l],
                !matched ==> s@.subrange(i as int, i + m) != pat@,
            decreases m - j,
        {
            let cs = s.get_char(i + j);
            let cp = pat.get_char(j);
            if cs != cp {
                proof {
                    assert(s@.subrange(i as int, i + m)[j as int] != pat@[j as int]);
                }
                matched = false;
                j = m;
            } else {
                j += 1;
            }
        }
        if matched {
            proof {
                assert(s@.subrange(i as int, i + m) =~= pat@);
            }
            return true;
        }
        i += 1;
    }
    false
}

/// The lowercase hexadecimal digit character for one digit value.
pub open spec fn hex_digit(d: int) -> char {
    if d == 0 {
        '0'
    } else if d == 1 {
        '1'
    } else if d == 2 {
        '2'
    } else if d == 3 {
        '3'
    } else if d == 4 {
        '4'
    } else if d == 5 {
        '5'
    } else if d == 6 {
        '6'
    } else if d == 7 {
        '7'
    } else if d == 8 {
        '8'
    } else if d == 9 {
        '9'
    } else if d == 10 {
        'a'
    } else if d == 11 {
        'b'
    } else if d == 12 {
        'c'
    } else if d == 13 {
        'd'
    } else if d == 14 {
        'e'
    } else {
        'f'
    }
}

/// The single-character string for one hexadecimal digit value.
fn hex_digit_str(d: u64) -> (r: &'static str)
    requires
        d < 16,
    ensures
        r@ == seq![hex_digit(d as int)],
{
    if d < 10 {
        let r = digit_str(d);
        proof {
            assert(seq![dec_digit(d as int)] =~= seq![hex_digit(d as int)]);
        }
        r
    } else {
        proof {
            reveal_strlit("a");
            reveal_strlit("b");
            reveal_strlit("c");
            reveal_strlit("d");
            reveal_strlit("e");
            reveal_strlit("f");
        }
        let r = match d {
            10 => "a",
            11 => "b",
            12 => "c",
            13 => "d",
            14 => "e",
            _ => "f",
        };
        proof {
            assert(r@ =~= seq![hex_digit(d as int)]);
        }
        r
    }
}

/// A value rendered as exactly `digits` lowercase hexadecimal digits,
/// most significant first, left-padded with zeros.
pub open spec fn hex_fixed(n: int, digits: int) -> Seq<char>
    decreases digits,
{
    if digits <= 0 {
        Seq::empty()
    } else {
        hex_fixed(n / 16, digits - 1).push(hex_digit(n % 16))
    }
}

/// Render a value as a fixed number of lowercase hexadecimal digits.
pub fn hex_fixed_string(n: u64, digits: u64) -> (r: String)
    ensures
        r@ == hex_fixed(n as int, digits as int),
    decreases digits,
{
    if digits == 0 {
        String::new()
    } else {
        let mut r = hex_fixed_string(n / 16, digits - 1);
        r.append(hex_digit_str(n % 16));
        proof {
            assert(hex_fixed((n / 16) as int, digits - 1) + seq![hex_digit((n % 16) as int)]
                =~= hex_fixed((n / 16) as int, digits - 1).push(hex_digit((n % 16) as int)));
        }
        r
    }
}

/// A value in tenths rendered with one decimal place.
pub open spec fn dec_one_place(t: int) -> Seq<char> {
    dec_str(t / 10) + seq!['.'] + seq![dec_digit(t % 10)]
}

/// Render a value in tenths with one decimal place.
pub fn one_place(t: u64) -> (r: String)
    ensures
        r@ == dec_one_place(t as int),
{
    let mut r = u64_to_string(t / 10);
    proof {
        reveal_strlit(".");
        assert("."@ =~= seq!['.']);
    }
    r.append(".");
    r.append(digit_str(t % 10));
    r
}

/// Divide, rounding to the nearest integer with ties to even.
pub fn round_to(num: u64, den: u64) -> (r: u64)
    requires
        den > 0,
        round_half_even(num as int, den as int) <= u64::MAX,
    ensures
        r == round_half_even(num as int, den as int),
{
    let q: u128 = num as u128 / den as u128;
    let rem: u128 = num as u128 % den as u128;
    let rounded: u128 = if 2 * rem < den as u128 {
        q
    } else if 2 * rem > den as u128 {
        q + 1
    } else if q % 2 == 0 {
        q
    } else {
        q + 1
    };
    rounded as u64
}

/// The string with its trailing whitespace removed.
pub fn trim_end_str<'a>(s: &'a str) -> (r: &'a str)
    ensures
        r@ == s@.take(spec_trim_end(s@)),
{
    let n = s.unicode_len();
    let mut end: usize = n;
    while end > 0 && is_whitespace_char(s.get_char(end - 1))
        invariant
            n == s@.len(),
            end <= n,
            forall|j: int| end <= j < s@.len() ==> is_ws_char(#[trigger] s@[j]),
        decreases end,
    {
        end -= 1;
    }
    proof {
        lemma_trim_end_at(s@, end as int);
    }
    let r = s.substring_char(0, end);
    proof {
        assert(r@ =~= s@.take(spec_trim_end(s@)));
    }
    r
}

/// Whether the character occurs in the string.
pub open spec fn spec_contains_char(s: Seq<char>, c: char) -> bool {
    exists|i: int| 0 <= i < s.len() && s[i] == c
}

/// Whether the character occurs in the string.
pub fn contains_char(s: &str, c: char) -> (r: bool)
    ensures
        r == spec_contains_char(s@, c),
{
    let n = s.unicode_len();
    let mut i: usize = 0;
    while i < n
        invariant
            n == s@.len(),
            i <= n,
            forall|j: int| 0 <= j < i ==> s@[j] != c,
        decreases n - i,
    {
        if s.get_char(i) == c {
            return true;
        }
        i += 1;
    }
    false
}

/// The end of the run of non-whitespace characters starting at `i`.
pub open spec fn spec_word_end(s: Seq<char>, i: int) -> int
    decreases s.len() - i,
{
    if 0 <= i < s.len() && !is_ws_char(s[i]) {
        spec_word_end(s, i + 1)
    } else {
        i
    }
}

/// A maximal non-whitespace run bounded on the right is exactly what
/// the word-end function denotes.
proof fn lemma_word_end_at(s: Seq<char>, i: int, j: int)
    requires
        0 <= i <= j <= s.len(),
        forall|k: int| i <= k < j ==> !is_ws_char(#[trigger] s[k]),
        j < s.len() ==> is_ws_char(s[j]),
    ensures
        spec_word_end(s, i) == j,
    decreases j - i,
{
    if i < j {
        lemma_word_end_at(s, i + 1, j);
    }
}

/// The word end never moves left and never passes the end.
proof fn lemma_word_end_bounds(s: Seq<char>, i: int)
    requires
        0 <= i <= s.len(),
    ensures
        i <= spec_word_end(s, i) <= s.len(),
    decreases s.len() - i,
{
    if 0 <= i < s.len() && !is_ws_char(s[i]) {
        lemma_word_end_bounds(s, i + 1);
    }
}

/// The whitespace-separated words of the string from position `i` on.
pub open spec fn spec_words_from(s: Seq<char>, i: int) -> Seq<Seq<char>>
    decreases s.len() - i, 1int,
    via spec_words_from_decreases
{
    if !(0 <= i < s.len()) {
        Seq::empty()
    } else if is_ws_char(s[i]) {
        spec_words_from(s, i + 1)
    } else {
        seq![s.subrange(i, spec_word_end(s, i))] + spec_words_from(s, spec_word_end(s, i))
    }
}

#[via_fn]
proof fn spec_words_from_decreases(s: Seq<char>, i: int) {
    if 0 <= i < s.len() && !is_ws_char(s[i]) {
        lemma_word_end_bounds(s, i + 1);
        assert(spec_word_end(s, i) == spec_word_end(s, i + 1));
        assert(spec_word_end(s, i) > i);
    }
}

/// The whitespace-separated words of the string.
pub open spec fn spec_split_ws(s: Seq<char>) -> Seq<Seq<char>> {
    spec_words_from(s, 0)
}

/// Split a string into its whitespace-separated words.
pub fn split_whitespace_vec(s: &str) -> (r: Vec<String>)
    ensures
        r.deep_view() == spec_split_ws(s@),
{
    let n = s.unicode_len();
    let mut out: Vec<String> = Vec::new();
    let mut i: usize = 0;
    while i < n
        invariant
            n == s@.len(),
            i <= n,
            out.deep_view() + spec_words_from(s@, i as int) == spec_split_ws(s@),
        decreases n - i,
    {
        if is_whitespace_char(s.get_char(i)) {
            i += 1;
        } else {
            let ghost prev = out.deep_view();
            let mut j = i + 1;
            while j < n && !is_whitespace_char(s.get_char(j))
                invariant
                    n == s@.len(),
                    i < j <= n,
                    forall|k: int| i <= k < j ==> !is_ws_char(#[trigger] s@[k]),
                decreases n - j,
            {
                j += 1;
            }
            proof {
                lemma_word_end_at(s@, i as int, j as int);
            }
            let word = s.substring_char(i, j);
            out.push(word.to_owned());
            proof {
                assert(out.deep_view() =~= prev.push(word@));
                assert(prev.push(word@) =~= prev + seq![s@.subrange(i as int, j as int)]);
                assert(out.deep_view() + spec_words_from(s@, j as int) =~= spec_split_ws(s@));
            }
            i = j;
        }
    }
    proof {
        assert(out.deep_view() =~= spec_split_ws(s@));
    }
    out
}

/// The words joined by single spaces.
pub open spec fn spec_join_spaces(parts: Seq<Seq<char>>) -> Seq<char>
    decreases parts.len(),
{
    if parts.len() == 0 {
        Seq::empty()
    } else if parts.len() == 1 {
        parts[0]
    } else {
        parts[0] + seq![' '] + spec_join_spaces(parts.drop_first())
    }
}

/// Join strings with single spaces between them.
pub fn join_spaces(parts: &Vec<String>, from: usize) -> (r: String)
    requires
        from <= parts@.len(),
    ensures
        r@ == spec_join_spaces(parts.deep_view().skip(from as int)),
    decreases parts@.len() - from,
{
    if from >= parts.len() {
        proof {
            assert(parts.deep_view().skip(from as int) =~= Seq::<Seq<char>>::empty());
        }
        String::new()
    } else if from + 1 == parts.len() {
        proof {
            assert(parts.deep_view().skip(from as int).len() == 1);
            assert(parts.deep_view().skip(from as int)[0] == parts.deep_view()[from as int]);
        }
        parts[from].clone()
    } else {
        let mut r = parts[from].clone();
        proof {
            reveal_strlit(" ");
            assert(" "@ =~= seq![' ']);
        }
        r.append(" ");
        let rest = join_spaces(parts, from + 1);
        r.append(rest.as_str());
        proof {
            let tail = parts.deep_view().skip(from as int);
            assert(tail[0] == parts.deep_view()[from as int]);
            assert(tail.drop_first() =~= parts.deep_view().skip(from as int + 1));
            assert(tail.len() >= 2);
        }
        r
    }
}

/// A value rendered as exactly `digits` decimal digits, most
/// significant first, left-padded with zeros.
pub open spec fn dec_fixed(n: int, digits: int) -> Seq<char>
    decreases digits,
{
    if digits <= 0 {
        Seq::empty()
    } else {
        dec_fixed(n / 10, digits - 1).push(dec_digit(n % 10))
    }
}

/// Render a value as a fixed number of decimal digits.
pub fn dec_fixed_string(n: u64, digits: u64) -> (r: String)
    ensures
        r@ == dec_fixed(n as int, digits as int),
    decreases digits,
{
    if digits == 0 {
        String::new()
    } else {
        let mut r = dec_fixed_string(n / 10, digits - 1);
        r.append(digit_str(n % 10));
        proof {
            assert(dec_fixed((n / 10) as int, digits - 1) + seq![dec_digit((n % 10) as int)]
                =~= dec_fixed((n / 10) as int, digits - 1).push(dec_digit((n % 10) as int)));
        }
        r
    }
}

/// A cost in millionths of a dollar rendered as dollars with six
/// decimal places, led by a dollar sign.
pub open spec fn spec_money(micro: int) -> Seq<char> {
    "$"@ + dec_str(micro / 1_000_000) + "."@ + dec_fixed(micro % 1_000_000, 6)
}

/// Render a cost held in millionths of a dollar, six decimal places.
pub fn format_micro_dollars(micro: u64) -> (r: String)
    ensures
        r@ == spec_money(micro as int),
{
    let mut r = String::from_str("$");
    let whole = u64_to_string(micro / 1_000_000);
    r.append(whole.as_str());
    r.append(".");
    let frac = dec_fixed_string(micro % 1_000_000, 6);
    r.append(frac.as_str());
    r
}

} // verus!
