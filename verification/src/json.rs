//! Lexical layer of the JSON codec: character classes, whitespace and token
//! scanners, string and integer literals, and a skipper for values under
//! keys the domain records do not use.
//!
//! Every exec function mirrors a spec function over the character sequence,
//! so parsing behaviour is pinned down exactly at the model level.
//!
//! The codec covers the wire shapes of the open-notify API. Two deliberate
//! bounds: string values accept only plain characters (no escape sequences),
//! and integer literals are limited to 19 digits with magnitude at most
//! `i64::MAX`.

use vstd::prelude::*;

verus! {

// ------------------------------------------------------------------
// Character classes
// ------------------------------------------------------------------

pub open spec fn is_ws_char(c: char) -> bool {
    c == ' ' || c == '\n' || c == '\t' || c == '\r'
}

/// A character that may stand unescaped inside a JSON string literal and
/// that this codec accepts: anything but the quote, the backslash and
/// control characters.
pub open spec fn is_plain_str_char(c: char) -> bool {
    c != '"' && c != '\\' && (c as u32) >= 32
}

pub open spec fn is_digit_char(c: char) -> bool {
    48 <= (c as u32) <= 57
}

pub open spec fn digit_val(c: char) -> int {
    (c as u32) - 48
}

/// A character that may continue a JSON number after its first character;
/// used only to skip over numbers under unused keys, so fractions and
/// exponents are consumed leniently.
pub open spec fn is_number_char(c: char) -> bool {
    is_digit_char(c) || c == '-' || c == '+' || c == '.' || c == 'e' || c == 'E'
}

// ------------------------------------------------------------------
// Scanners: the first position at or after `i` whose character leaves the
// class, or the end of the sequence.
// ------------------------------------------------------------------

pub open spec fn spec_skip_ws(s: Seq<char>, i: int) -> int
    decreases s.len() - i,
{
    if 0 <= i < s.len() && is_ws_char(s[i]) {
        spec_skip_ws(s, i + 1)
    } else {
        i
    }
}

pub open spec fn spec_scan_plain(s: Seq<char>, i: int) -> int
    decreases s.len() - i,
{
    if 0 <= i < s.len() && is_plain_str_char(s[i]) {
        spec_scan_plain(s, i + 1)
    } else {
        i
    }
}

pub open spec fn spec_scan_digits(s: Seq<char>, i: int) -> int
    decreases s.len() - i,
{
    if 0 <= i < s.len() && is_digit_char(s[i]) {
        spec_scan_digits(s, i + 1)
    } else {
        i
    }
}

pub open spec fn spec_scan_number(s: Seq<char>, i: int) -> int
    decreases s.len() - i,
{
    if 0 <= i < s.len() && is_number_char(s[i]) {
        spec_scan_number(s, i + 1)
    } else {
        i
    }
}

/// Where a run of plain characters ends at a non-plain character (or at the
/// end), the scanner stops exactly there.
pub proof fn lemma_scan_plain_end(s: Seq<char>, i: int, j: int)
    requires
        0 <= i <= j <= s.len(),
        forall|k: int| i <= k < j ==> is_plain_str_char(s[k]),
        j == s.len() || !is_plain_str_char(s[j]),
    ensures
        spec_scan_plain(s, i) == j,
    decreases j - i,
{
    if i < j {
        lemma_scan_plain_end(s, i + 1, j);
    }
}

/// Where a run of digits ends at a non-digit (or at the end), the scanner
/// stops exactly there.
pub proof fn lemma_scan_digits_end(s: Seq<char>, i: int, j: int)
    requires
        0 <= i <= j <= s.len(),
        forall|k: int| i <= k < j ==> is_digit_char(s[k]),
        j == s.len() || !is_digit_char(s[j]),
    ensures
        spec_scan_digits(s, i) == j,
    decreases j - i,
{
    if i < j {
        lemma_scan_digits_end(s, i + 1, j);
    }
}

// ------------------------------------------------------------------
// Exec scanners
// ------------------------------------------------------------------

fn is_ws(c: char) -> (r: bool)
    ensures
        r == is_ws_char(c),
{
    c == ' ' || c == '\n' || c == '\t' || c == '\r'
}

fn is_plain(c: char) -> (r: bool)
    ensures
        r == is_plain_str_char(c),
{
    c != '"' && c != '\\' && (c as u32) >= 32
}

pub(crate) fn skip_ws(s: &str, i: usize, n: usize) -> (r: usize)
    requires
        n == s@.len(),
        i <= n,
    ensures
        r == spec_skip_ws(s@, i as int),
        i <= r <= n,
{
    let mut k: usize = i;
    while k < n && is_ws(s.get_char(k))
        invariant
            n == s@.len(),
            i <= k <= n,
            spec_skip_ws(s@, i as int) == spec_skip_ws(s@, k as int),
        decreases n - k,
    {
        k = k + 1;
    }
    k
}

// ------------------------------------------------------------------
// JSON string literals
// ------------------------------------------------------------------

/// A JSON string literal at `i`: an opening quote, a run of plain
/// characters, and a closing quote. The result is the content and the
/// position after the closing quote.
pub open spec fn spec_parse_string(s: Seq<char>, i: int) -> Option<(Seq<char>, int)> {
    let j = spec_scan_plain(s, i + 1);
    if !(0 <= i < s.len() && s[i] == '"') {
        None
    } else if j < s.len() && s[j] == '"' {
        Some((s.subrange(i + 1, j), j + 1))
    } else {
        None
    }
}

pub(crate) fn parse_string(s: &str, i: usize, n: usize) -> (r: Option<(String, usize)>)
    requires
        n == s@.len(),
        i <= n,
    ensures
        match r {
            Some(cj) => spec_parse_string(s@, i as int) == Some((cj.0@, cj.1 as int)) && i + 1
                < cj.1 <= n,
            None => spec_parse_string(s@, i as int) is None,
        },
{
    if i >= n || s.get_char(i) != '"' {
        return None;
    }
    let mut k: usize = i + 1;
    while k < n && is_plain(s.get_char(k))
        invariant
            n == s@.len(),
            i + 1 <= k <= n,
            spec_scan_plain(s@, i + 1) == spec_scan_plain(s@, k as int),
        decreases n - k,
    {
        k = k + 1;
    }
    if k < n && s.get_char(k) == '"' {
        let content = s.substring_char(i + 1, k);
        Some((String::from_str(content), k + 1))
    } else {
        None
    }
}

// ------------------------------------------------------------------
// JSON integer literals
// ------------------------------------------------------------------

pub open spec fn pow10(k: nat) -> int
    decreases k,
{
    if k == 0 {
        1
    } else {
        10 * pow10((k - 1) as nat)
    }
}

/// The numeric value of a sequence of decimal digits.
pub open spec fn seq_num_val(ds: Seq<char>) -> int
    decreases ds.len(),
{
    if ds.len() == 0 {
        0
    } else {
        seq_num_val(ds.drop_last()) * 10 + digit_val(ds.last())
    }
}

pub proof fn lemma_seq_num_val_bound(ds: Seq<char>)
    requires
        forall|k: int| 0 <= k < ds.len() ==> is_digit_char(ds[k]),
    ensures
        0 <= seq_num_val(ds) < pow10(ds.len()),
    decreases ds.len(),
{
    if ds.len() > 0 {
        lemma_seq_num_val_bound(ds.drop_last());
        let v = seq_num_val(ds.drop_last());
        let p = pow10((ds.len() - 1) as nat);
        assert(0 <= digit_val(ds.last()) <= 9);
        assert(v * 10 + digit_val(ds.last()) < p * 10) by (nonlinear_arith)
            requires
                0 <= v < p,
                digit_val(ds.last()) <= 9,
        ;
        assert(0 <= v * 10) by (nonlinear_arith)
            requires
                0 <= v,
        ;
    }
}

/// An unsigned integer literal at `i`: a non-empty run of at most 19 digits
/// whose value fits in `i64`. The result is the value and the position after
/// the run.
pub open spec fn spec_parse_uint(s: Seq<char>, i: int) -> Option<(int, int)> {
    let j = spec_scan_digits(s, i);
    if !(0 <= i < s.len() && is_digit_char(s[i])) {
        None
    } else if j - i > 19 {
        None
    } else {
        let v = seq_num_val(s.subrange(i, j));
        if v > i64::MAX {
            None
        } else {
            Some((v, j))
        }
    }
}

/// An integer literal at `i`: an optional leading minus and an unsigned
/// literal; the magnitude is bounded by `i64::MAX` either way.
pub open spec fn spec_parse_int(s: Seq<char>, i: int) -> Option<(int, int)> {
    if 0 <= i < s.len() && s[i] == '-' {
        match spec_parse_uint(s, i + 1) {
            Some(vj) => Some((-vj.0, vj.1)),
            None => None,
        }
    } else {
        spec_parse_uint(s, i)
    }
}

fn parse_uint(s: &str, i: usize, n: usize) -> (r: Option<(i64, usize)>)
    requires
        n == s@.len(),
        i <= n,
    ensures
        match r {
            Some(vj) => spec_parse_uint(s@, i as int) == Some((vj.0 as int, vj.1 as int)) && i
                < vj.1 <= n && vj.0 >= 0,
            None => spec_parse_uint(s@, i as int) is None,
        },
{
    if i >= n || !is_digit(s.get_char(i)) {
        return None;
    }
    // Find the end of the digit run.
    let mut j: usize = i;
    while j < n && is_digit(s.get_char(j))
        invariant
            n == s@.len(),
            i <= j <= n,
            spec_scan_digits(s@, i as int) == spec_scan_digits(s@, j as int),
            forall|k: int| i <= k < j ==> is_digit_char(s@[k]),
        decreases n - j,
    {
        j = j + 1;
    }
    assert(spec_scan_digits(s@, i as int) == j as int);
    if j - i > 19 {
        return None;
    }
    // Accumulate the value left to right.
    let ghost ds = s@.subrange(i as int, j as int);
    proof {
        lemma_seq_num_val_bound(ds);
    }
    let mut acc: u128 = 0;
    let mut k: usize = i;
    while k < j
        invariant
            n == s@.len(),
            i <= k <= j <= n,
            j - i <= 19,
            forall|m: int| i <= m < j ==> is_digit_char(s@[m]),
            acc == seq_num_val(s@.subrange(i as int, k as int)),
            0 <= acc < pow10((k - i) as nat),
        decreases j - k,
    {
        let c = s.get_char(k);
        let d: u128 = (c as u32) as u128 - 48;
        proof {
            lemma_seq_num_val_bound(s@.subrange(i as int, k as int));
            assert(pow10((k - i) as nat) <= pow10(19)) by {
                lemma_pow10_le((k - i) as nat, 19);
            }
            assert(pow10(19) == 10_000_000_000_000_000_000) by {
                reveal_with_fuel(pow10, 20);
            }
            assert(s@.subrange(i as int, (k + 1) as int).drop_last() =~= s@.subrange(
                i as int,
                k as int,
            ));
            assert(acc * 10 < pow10((k - i) as nat) * 10) by (nonlinear_arith)
                requires
                    0 <= acc < pow10((k - i) as nat),
                    pow10((k - i) as nat) >= 1,
            ;
        }
        acc = acc * 10 + d;
        k = k + 1;
    }
    assert(s@.subrange(i as int, k as int) =~= ds);
    if acc > 9_223_372_036_854_775_807u128 {
        return None;
    }
    Some((acc as i64, j))
}

pub proof fn lemma_pow10_le(a: nat, b: nat)
    requires
        a <= b,
    ensures
        pow10(a) <= pow10(b),
        pow10(a) >= 1,
    decreases b,
{
    if b > 0 {
        if a == b {
            lemma_pow10_le((a - 1) as nat, (b - 1) as nat);
        } else {
            lemma_pow10_le(a, (b - 1) as nat);
        }
    }
}

fn is_digit(c: char) -> (r: bool)
    ensures
        r == is_digit_char(c),
{
    let u = c as u32;
    48 <= u && u <= 57
}

// ------------------------------------------------------------------
// Skipping one JSON value of any shape; used for keys the records do not
// use. Strings, objects and arrays are checked structurally; numbers are
// consumed leniently, and `true`, `false` and `null` are matched literally.
// The bound guards inside the definitions keep the mutual recursion well
// founded; they never reject an actual scan, since every piece consumes at
// least one character and stays inside the sequence.
// ------------------------------------------------------------------

pub open spec fn spec_skip_value(s: Seq<char>, i: int) -> Option<int>
    decreases s.len() - i, 0int,
{
    if !(0 <= i < s.len()) {
        None
    } else if s[i] == '"' {
        match spec_parse_string(s, i) {
            Some(cj) => Some(cj.1),
            None => None,
        }
    } else if s[i] == '{' {
        spec_skip_object_rest(s, i + 1)
    } else if s[i] == '[' {
        spec_skip_array_rest(s, i + 1)
    } else if s[i] == 't' {
        if i + 4 <= s.len() && s[i + 1] == 'r' && s[i + 2] == 'u' && s[i + 3] == 'e' {
            Some(i + 4)
        } else {
            None
        }
    } else if s[i] == 'f' {
        if i + 5 <= s.len() && s[i + 1] == 'a' && s[i + 2] == 'l' && s[i + 3] == 's' && s[i + 4]
            == 'e' {
            Some(i + 5)
        } else {
            None
        }
    } else if s[i] == 'n' {
        if i + 4 <= s.len() && s[i + 1] == 'u' && s[i + 2] == 'l' && s[i + 3] == 'l' {
            Some(i + 4)
        } else {
            None
        }
    } else if s[i] == '-' || is_digit_char(s[i]) {
        Some(spec_scan_number(s, i + 1))
    } else {
        None
    }
}

/// Skips the remainder of an object, positioned just after the `{`.
pub open spec fn spec_skip_object_rest(s: Seq<char>, i: int) -> Option<int>
    decreases s.len() - i, 2int,
{
    if !(0 <= i <= s.len()) {
        None
    } else {
        let j = spec_skip_ws(s, i);
        if !(i <= j <= s.len()) {
            None
        } else if j < s.len() && s[j] == '}' {
            Some(j + 1)
        } else {
            spec_skip_members(s, j)
        }
    }
}

/// Skips object members, positioned at a key.
pub open spec fn spec_skip_members(s: Seq<char>, i: int) -> Option<int>
    decreases s.len() - i, 1int,
{
    if !(0 <= i <= s.len()) {
        None
    } else {
        match spec_parse_string(s, i) {
            None => None,
            Some(kj) => {
                let j1 = spec_skip_ws(s, kj.1);
                if !(j1 < s.len() && s[j1] == ':') {
                    None
                } else {
                    let k = spec_skip_ws(s, j1 + 1);
                    if !(i < k <= s.len()) {
                        None
                    } else {
                        match spec_skip_value(s, k) {
                            None => None,
                            Some(ve) => {
                                let j2 = spec_skip_ws(s, ve);
                                if j2 < s.len() && s[j2] == '}' {
                                    Some(j2 + 1)
                                } else if j2 < s.len() && s[j2] == ',' {
                                    let m = spec_skip_ws(s, j2 + 1);
                                    if i < m <= s.len() {
                                        spec_skip_members(s, m)
                                    } else {
                                        None
                                    }
                                } else {
                                    None
                                }
                            },
                        }
                    }
                }
            },
        }
    }
}

/// Skips the remainder of an array, positioned just after the `[`.
pub open spec fn spec_skip_array_rest(s: Seq<char>, i: int) -> Option<int>
    decreases s.len() - i, 2int,
{
    if !(0 <= i <= s.len()) {
        None
    } else {
        let j = spec_skip_ws(s, i);
        if !(i <= j <= s.len()) {
            None
        } else if j < s.len() && s[j] == ']' {
            Some(j + 1)
        } else {
            spec_skip_array_items(s, j)
        }
    }
}

/// Skips array items, positioned at an item.
pub open spec fn spec_skip_array_items(s: Seq<char>, i: int) -> Option<int>
    decreases s.len() - i, 1int,
{
    if !(0 <= i <= s.len()) {
        None
    } else {
        match spec_skip_value(s, i) {
            None => None,
            Some(ve) => {
                let j = spec_skip_ws(s, ve);
                if j < s.len() && s[j] == ']' {
                    Some(j + 1)
                } else if j < s.len() && s[j] == ',' {
                    let m = spec_skip_ws(s, j + 1);
                    if i < m <= s.len() {
                        spec_skip_array_items(s, m)
                    } else {
                        None
                    }
                } else {
                    None
                }
            },
        }
    }
}

pub(crate) fn skip_value(s: &str, i: usize, n: usize) -> (r: Option<usize>)
    requires
        n == s@.len(),
        i <= n,
    ensures
        match r {
            Some(j) => spec_skip_value(s@, i as int) == Some(j as int) && i < j <= n,
            None => spec_skip_value(s@, i as int) is None,
        },
    decreases n - i, 0int,
{
    if i >= n {
        return None;
    }
    let c = s.get_char(i);
    if c == '"' {
        match parse_string(s, i, n) {
            Some((_, j)) => Some(j),
            None => None,
        }
    } else if c == '{' {
        skip_object_rest(s, i + 1, n)
    } else if c == '[' {
        skip_array_rest(s, i + 1, n)
    } else if c == 't' {
        if n - i >= 4 && s.get_char(i + 1) == 'r' && s.get_char(i + 2) == 'u' && s.get_char(i + 3)
            == 'e' {
            Some(i + 4)
        } else {
            None
        }
    } else if c == 'f' {
        if n - i >= 5 && s.get_char(i + 1) == 'a' && s.get_char(i + 2) == 'l' && s.get_char(i + 3)
            == 's' && s.get_char(i + 4) == 'e' {
            Some(i + 5)
        } else {
            None
        }
    } else if c == 'n' {
        if n - i >= 4 && s.get_char(i + 1) == 'u' && s.get_char(i + 2) == 'l' && s.get_char(i + 3)
            == 'l' {
            Some(i + 4)
        } else {
            None
        }
    } else if c == '-' || is_digit(c) {
        Some(scan_number(s, i + 1, n))
    } else {
        None
    }
}

fn is_number(c: char) -> (r: bool)
    ensures
        r == is_number_char(c),
{
    is_digit(c) || c == '-' || c == '+' || c == '.' || c == 'e' || c == 'E'
}

fn scan_number(s: &str, i: usize, n: usize) -> (r: usize)
    requires
        n == s@.len(),
        i <= n,
    ensures
        r == spec_scan_number(s@, i as int),
        i <= r <= n,
{
    let mut k: usize = i;
    while k < n && is_number(s.get_char(k))
        invariant
            n == s@.len(),
            i <= k <= n,
            spec_scan_number(s@, i as int) == spec_scan_number(s@, k as int),
        decreases n - k,
    {
        k = k + 1;
    }
    k
}

fn skip_object_rest(s: &str, i: usize, n: usize) -> (r: Option<usize>)
    requires
        n == s@.len(),
        i <= n,
    ensures
        match r {
            Some(j) => spec_skip_object_rest(s@, i as int) == Some(j as int) && i < j <= n,
            None => spec_skip_object_rest(s@, i as int) is None,
        },
    decreases n - i, 2int,
{
    let j = skip_ws(s, i, n);
    if j < n && s.get_char(j) == '}' {
        Some(j + 1)
    } else {
        skip_members(s, j, n)
    }
}

fn skip_members(s: &str, i: usize, n: usize) -> (r: Option<usize>)
    requires
        n == s@.len(),
        i <= n,
    ensures
        match r {
            Some(j) => spec_skip_members(s@, i as int) == Some(j as int) && i < j <= n,
            None => spec_skip_members(s@, i as int) is None,
        },
    decreases n - i, 1int,
{
    match parse_string(s, i, n) {
        None => None,
        Some((_, ke)) => {
            let j1 = skip_ws(s, ke, n);
            if !(j1 < n && s.get_char(j1) == ':') {
                None
            } else {
                let k = skip_ws(s, j1 + 1, n);
                match skip_value(s, k, n) {
                    None => None,
                    Some(ve) => {
                        let j2 = skip_ws(s, ve, n);
                        if j2 < n && s.get_char(j2) == '}' {
                            Some(j2 + 1)
                        } else if j2 < n && s.get_char(j2) == ',' {
                            let m = skip_ws(s, j2 + 1, n);
                            skip_members(s, m, n)
                        } else {
                            None
                        }
                    },
                }
            }
        },
    }
}

fn skip_array_rest(s: &str, i: usize, n: usize) -> (r: Option<usize>)
    requires
        n == s@.len(),
        i <= n,
    ensures
        match r {
            Some(j) => spec_skip_array_rest(s@, i as int) == Some(j as int) && i < j <= n,
            None => spec_skip_array_rest(s@, i as int) is None,
        },
    decreases n - i, 2int,
{
    let j = skip_ws(s, i, n);
    if j < n && s.get_char(j) == ']' {
        Some(j + 1)
    } else {
        skip_array_items(s, j, n)
    }
}

fn skip_array_items(s: &str, i: usize, n: usize) -> (r: Option<usize>)
    requires
        n == s@.len(),
        i <= n,
    ensures
        match r {
            Some(j) => spec_skip_array_items(s@, i as int) == Some(j as int) && i < j <= n,
            None => spec_skip_array_items(s@, i as int) is None,
        },
    decreases n - i, 1int,
{
    match skip_value(s, i, n) {
        None => None,
        Some(ve) => {
            let j = skip_ws(s, ve, n);
            if j < n && s.get_char(j) == ']' {
                Some(j + 1)
            } else if j < n && s.get_char(j) == ',' {
                let m = skip_ws(s, j + 1, n);
                skip_array_items(s, m, n)
            } else {
                None
            }
        },
    }
}

pub(crate) fn parse_int(s: &str, i: usize, n: usize) -> (r: Option<(i64, usize)>)
    requires
        n == s@.len(),
        i <= n,
    ensures
        match r {
            Some(vj) => spec_parse_int(s@, i as int) == Some((vj.0 as int, vj.1 as int)) && i
                < vj.1 <= n,
            None => spec_parse_int(s@, i as int) is None,
        },
{
    if i < n && s.get_char(i) == '-' {
        match parse_uint(s, i + 1, n) {
            Some((v, j)) => Some((-v, j)),
            None => None,
        }
    } else {
        parse_uint(s, i, n)
    }
}

} // verus!
