//! Gap settings: parsing Hyprland's CSS-like gap values and picking the
//! textual value of an option out of `hyprctl getoption -j` output.
use vstd::prelude::*;

use crate::area::in_i32;

verus! {

/// Gap values for all four edges (top, right, bottom, left).
#[derive(Debug, Clone, Copy, PartialEq, Eq, Structural)]
pub struct Gaps {
    pub top: i32,
    pub right: i32,
    pub bottom: i32,
    pub left: i32,
}

/// All four edges zero.
pub open spec fn zero_gaps() -> Gaps {
    Gaps { top: 0, right: 0, bottom: 0, left: 0 }
}

impl Default for Gaps {
    fn default() -> (g: Self)
        ensures
            g == zero_gaps(),
    {
        Gaps { top: 0, right: 0, bottom: 0, left: 0 }
    }
}

/// Unicode `White_Space`, the set `char::is_whitespace`, and so
/// `str::split_whitespace` and `str::trim`, go by.
pub open spec fn is_white_space(c: char) -> bool {
    let u = c as u32;
    ||| 0x09 <= u <= 0x0d
    ||| u == 0x20
    ||| u == 0x85
    ||| u == 0xa0
    ||| u == 0x1680
    ||| 0x2000 <= u <= 0x200a
    ||| u == 0x2028
    ||| u == 0x2029
    ||| u == 0x202f
    ||| u == 0x205f
    ||| u == 0x3000
}

/// Is `c` white space?
pub fn white_space(c: char) -> (b: bool)
    ensures
        b == is_white_space(c),
{
    let u = c as u32;
    (0x09 <= u && u <= 0x0d) || u == 0x20 || u == 0x85 || u == 0xa0 || u == 0x1680 || (0x2000 <= u
        && u <= 0x200a) || u == 0x2028 || u == 0x2029 || u == 0x202f || u == 0x205f || u == 0x3000
}

/// Reading `s` left to right: the words completed so far, and the word
/// being read (empty between words).
pub open spec fn scan_words(s: Seq<char>) -> (Seq<Seq<char>>, Seq<char>)
    decreases s.len(),
{
    if s.len() == 0 {
        (Seq::empty(), Seq::empty())
    } else {
        let (done, cur) = scan_words(s.drop_last());
        let c = s.last();
        if is_white_space(c) {
            if cur.len() > 0 {
                (done.push(cur), Seq::empty())
            } else {
                (done, cur)
            }
        } else {
            (done, cur.push(c))
        }
    }
}

/// The words of `s`: its maximal runs of non-white-space characters, in
/// order (what `str::split_whitespace` yields).
pub open spec fn words(s: Seq<char>) -> Seq<Seq<char>> {
    let (done, cur) = scan_words(s);
    if cur.len() > 0 {
        done.push(cur)
    } else {
        done
    }
}

/// `c` is an ASCII decimal digit.
pub open spec fn is_digit(c: char) -> bool {
    '0' as u32 <= c as u32 <= '9' as u32
}

/// The value of the decimal digits `s`, most significant first.
pub open spec fn digits_value(s: Seq<char>) -> int
    decreases s.len(),
{
    if s.len() == 0 {
        0
    } else {
        digits_value(s.drop_last()) * 10 + (s.last() as u32 - '0' as u32)
    }
}

/// Length of the sign in front of a number: one for a leading `-` or `+`.
pub open spec fn sign_len(w: Seq<char>) -> int {
    if w.len() > 0 && (w[0] == '-' || w[0] == '+') {
        1
    } else {
        0
    }
}

/// The `i32` a word denotes, as `str::parse::<i32>` reads it: an optional
/// `-` or `+` and at least one decimal digit, with the value in range.
pub open spec fn spec_parse_i32(w: Seq<char>) -> Option<i32> {
    let digits = w.skip(sign_len(w));
    let magnitude = digits_value(digits);
    let v = if w.len() > 0 && w[0] == '-' {
        -magnitude
    } else {
        magnitude
    };
    if digits.len() > 0 && (forall|i: int| 0 <= i < digits.len() ==> is_digit(#[trigger] digits[i]))
        && in_i32(v) {
        Some(v as i32)
    } else {
        None
    }
}

/// Above any `i32` magnitude: digits are accumulated up to this cap.
const MAGNITUDE_CAP: i64 = 0x8000_0001;

proof fn lemma_digits_value_nonneg(s: Seq<char>)
    requires
        forall|i: int| 0 <= i < s.len() ==> is_digit(#[trigger] s[i]),
    ensures
        digits_value(s) >= 0,
    decreases s.len(),
{
    if s.len() > 0 {
        lemma_digits_value_nonneg(s.drop_last());
    }
}

/// Read a word as an `i32`.
fn parse_word(w: &Vec<char>) -> (r: Option<i32>)
    ensures
        r == spec_parse_i32(w@),
{
    let n = w.len();
    if n == 0 {
        return None;
    }
    let negative = w[0] == '-';
    let start: usize = if w[0] == '-' || w[0] == '+' {
        1
    } else {
        0
    };
    assert(start == sign_len(w@));
    if start == n {
        assert(w@.skip(start as int).len() == 0);
        return None;
    }
    let ghost digits = w@.skip(start as int);
    let mut acc: i64 = 0;
    let mut i: usize = start;
    while i < n
        invariant
            start <= i <= n,
            n == w@.len(),
            digits == w@.skip(start as int),
            start == sign_len(w@),
            n > 0,
            negative == (w@[0] == '-'),
            forall|k: int| 0 <= k < i - start ==> is_digit(#[trigger] digits[k]),
            digits_value(digits.take(i - start)) >= 0,
            acc == if digits_value(digits.take(i - start)) < MAGNITUDE_CAP {
                digits_value(digits.take(i - start))
            } else {
                MAGNITUDE_CAP as int
            },
        decreases n - i,
    {
        let c = w[i];
        assert(c == digits[i - start]);
        let u = c as u32;
        if u < '0' as u32 || u > '9' as u32 {
            assert(!is_digit(digits[i - start]));
            return None;
        }
        let d = (u - '0' as u32) as i64;
        assert(digits.take(i + 1 - start).drop_last() =~= digits.take(i - start));
        acc = acc * 10 + d;
        if acc > MAGNITUDE_CAP {
            acc = MAGNITUDE_CAP;
        }
        i += 1;
    }
    assert(digits.take(n - start) =~= digits);
    let v = if negative {
        -acc
    } else {
        acc
    };
    if v < i32::MIN as i64 || v > i32::MAX as i64 {
        None
    } else {
        Some(v as i32)
    }
}

/// The numbers among the words of `s`, in order; words that are not an
/// `i32` are skipped.
pub open spec fn spec_gap_values(s: Seq<char>) -> Seq<i32> {
    words(s).filter_map(|w: Seq<char>| spec_parse_i32(w))
}

fn push_value(vals: &mut Vec<i32>, word: &Vec<char>, ghost_done: Ghost<Seq<Seq<char>>>)
    requires
        old(vals)@ == ghost_done@.filter_map(|w: Seq<char>| spec_parse_i32(w)),
    ensures
        final(vals)@ == ghost_done@.push(word@).filter_map(|w: Seq<char>| spec_parse_i32(w)),
{
    let ghost f = |w: Seq<char>| spec_parse_i32(w);
    assert(ghost_done@.push(word@).drop_last() =~= ghost_done@);
    match parse_word(word) {
        Some(v) => {
            vals.push(v);
        },
        None => {},
    }
}

/// The numbers among the words of `value`.
fn collect_gap_values(value: &str) -> (v: Vec<i32>)
    ensures
        v@ == spec_gap_values(value@),
{
    broadcast use vstd::string::group_string_axioms;

    let ghost s = value@;
    let mut vals: Vec<i32> = Vec::new();
    let mut cur: Vec<char> = Vec::new();
    for c in it: value.chars()
        invariant
            it.seq() == s,
            s == value@,
            vals@ == scan_words(s.take(it.index())).0.filter_map(
                |w: Seq<char>| spec_parse_i32(w),
            ),
            cur@ == scan_words(s.take(it.index())).1,
    {
        assert(c == s[it.index()]);
        assert(s.take(it.index() + 1).drop_last() =~= s.take(it.index()));
        if white_space(c) {
            if cur.len() > 0 {
                push_value(&mut vals, &cur, Ghost(scan_words(s.take(it.index())).0));
                cur = Vec::new();
            }
        } else {
            cur.push(c);
        }
    }
    assert(s.take(s.len() as int) =~= s);
    if cur.len() > 0 {
        push_value(&mut vals, &cur, Ghost(scan_words(s).0));
    }
    vals
}

/// The gaps that a list of values gives, CSS shorthand style:
/// one value for all four edges; two for vertical, horizontal; three for
/// top, horizontal, bottom; four for top, right, bottom, left. Any other
/// count gives none.
pub open spec fn gaps_from_values(p: Seq<i32>) -> Option<Gaps> {
    if p.len() == 1 {
        Some(Gaps { top: p[0], right: p[0], bottom: p[0], left: p[0] })
    } else if p.len() == 2 {
        Some(Gaps { top: p[0], right: p[1], bottom: p[0], left: p[1] })
    } else if p.len() == 3 {
        Some(Gaps { top: p[0], right: p[1], bottom: p[2], left: p[1] })
    } else if p.len() == 4 {
        Some(Gaps { top: p[0], right: p[1], bottom: p[2], left: p[3] })
    } else {
        None
    }
}

/// The gaps a Hyprland gap value gives: the numbers among its words read
/// CSS shorthand style, or zero gaps when their count is not one to four.
pub open spec fn spec_parse_gaps(s: Seq<char>) -> Gaps {
    match gaps_from_values(spec_gap_values(s)) {
        Some(g) => g,
        None => zero_gaps(),
    }
}

/// `s` holds nothing but white space (it trims to the empty string).
pub open spec fn all_white_space(s: Seq<char>) -> bool {
    forall|i: int| 0 <= i < s.len() ==> is_white_space(#[trigger] s[i])
}

/// The value cannot be read as gaps although it is not blank: the case
/// the tool warns about before falling back to zero gaps.
pub open spec fn spec_parse_warns(s: Seq<char>) -> bool {
    gaps_from_values(spec_gap_values(s)) is None && !all_white_space(s)
}

/// Is `value` blank?
fn is_blank(value: &str) -> (b: bool)
    ensures
        b == all_white_space(value@),
{
    broadcast use vstd::string::group_string_axioms;

    let ghost s = value@;
    for c in it: value.chars()
        invariant
            it.seq() == s,
            s == value@,
            forall|k: int| 0 <= k < it.index() ==> is_white_space(#[trigger] s[k]),
    {
        assert(c == s[it.index()]);
        if !white_space(c) {
            return false;
        }
    }
    true
}

impl Gaps {
    /// The gaps a list of values gives, CSS shorthand style.
    fn from_values(p: &Vec<i32>) -> (r: Option<Gaps>)
        ensures
            r == gaps_from_values(p@),
    {
        let n = p.len();
        if n == 1 {
            Some(Gaps { top: p[0], right: p[0], bottom: p[0], left: p[0] })
        } else if n == 2 {
            Some(Gaps { top: p[0], right: p[1], bottom: p[0], left: p[1] })
        } else if n == 3 {
            Some(Gaps { top: p[0], right: p[1], bottom: p[2], left: p[1] })
        } else if n == 4 {
            Some(Gaps { top: p[0], right: p[1], bottom: p[2], left: p[3] })
        } else {
            None
        }
    }

    /// Parse gap values from Hyprland's format. Follows CSS shorthand:
    /// - 1 value: all four edges
    /// - 2 values: vertical, horizontal
    /// - 3 values: top, horizontal, bottom
    /// - 4 values: top, right, bottom, left
    ///
    /// Words that are not numbers are skipped; any other count of numbers
    /// falls back to zero gaps.
    pub fn parse(value: &str) -> (g: Self)
        ensures
            g == spec_parse_gaps(value@),
    {
        let parts = collect_gap_values(value);
        match Gaps::from_values(&parts) {
            Some(g) => g,
            None => Gaps { top: 0, right: 0, bottom: 0, left: 0 },
        }
    }

    /// `parse` falls back to zero gaps on a value that is not blank: the
    /// case to warn about.
    pub fn parse_warns(value: &str) -> (b: bool)
        ensures
            b == spec_parse_warns(value@),
    {
        let parts = collect_gap_values(value);
        Gaps::from_values(&parts).is_none() && !is_blank(value)
    }
}

/// The character of the decimal digit `d`.
pub open spec fn digit_char(d: int) -> char {
    (d + '0' as u32) as char
}

/// The decimal digits of `n`, most significant first, without leading
/// zeros ("0" for zero).
pub open spec fn decimal_digits(n: nat) -> Seq<char>
    decreases n,
{
    if n < 10 {
        seq![digit_char(n as int)]
    } else {
        decimal_digits(n / 10).push(digit_char((n % 10) as int))
    }
}

/// The decimal representation of `v`, with a `-` in front when negative
/// (what `to_string` gives for an integer).
pub open spec fn decimal(v: int) -> Seq<char> {
    if v < 0 {
        seq!['-'] + decimal_digits((-v) as nat)
    } else {
        decimal_digits(v as nat)
    }
}

/// Appends `c` to `s`.
///
/// Trusted: calls `String::push`, which appends the character.
#[verifier::external_body]
fn push_char(s: &mut String, c: char)
    ensures
        final(s)@ == old(s)@.push(c),
{
    s.push(c);
}

fn digit(d: u64) -> (c: char)
    requires
        d < 10,
    ensures
        c == digit_char(d as int),
{
    ((d as u8) + 48u8) as char
}

fn push_decimal_digits(s: &mut String, n: u64)
    ensures
        final(s)@ == old(s)@ + decimal_digits(n as nat),
    decreases n,
{
    if n >= 10 {
        push_decimal_digits(s, n / 10);
    }
    push_char(s, digit(n % 10));
    assert(decimal_digits(n as nat) =~= if n < 10 {
        seq![digit_char(n as int)]
    } else {
        decimal_digits((n / 10) as nat).push(digit_char((n % 10) as int))
    });
}

/// The decimal representation of `v`.
pub fn format_i64(v: i64) -> (s: String)
    ensures
        s@ == decimal(v as int),
{
    let mut s = String::new();
    let magnitude: u64 = if v < 0 {
        push_char(&mut s, '-');
        (0i128 - v as i128) as u64
    } else {
        v as u64
    };
    push_decimal_digits(&mut s, magnitude);
    s
}

/// The textual value of an option, from the fields of `hyprctl getoption
/// -j`: `custom` (vector values such as gaps), else `int` in decimal, else
/// `float` as text, else `str`, else `"0"`.
pub open spec fn spec_pick_option(
    custom: Option<Seq<char>>,
    integer: Option<i64>,
    float_text: Option<Seq<char>>,
    text: Option<Seq<char>>,
) -> Seq<char> {
    if custom is Some {
        custom->0
    } else if integer is Some {
        decimal(integer->0 as int)
    } else if float_text is Some {
        float_text->0
    } else if text is Some {
        text->0
    } else {
        seq!['0']
    }
}

/// Pick the textual value of an option from its fields, in the order
/// `custom`, `int`, `float`, `str`; `"0"` when none is there.
pub fn pick_option_value(
    custom: Option<String>,
    integer: Option<i64>,
    float_text: Option<String>,
    text: Option<String>,
) -> (r: String)
    ensures
        r@ == spec_pick_option(custom.deep_view(), integer, float_text.deep_view(), text.deep_view()),
        custom matches Some(c) ==> r@ == c@,
        custom is None && integer is Some ==> r@ == decimal(integer->0 as int),
        custom is None && integer is None && float_text is Some ==> r@ == float_text->0@,
        custom is None && integer is None && float_text is None && text is Some ==> r@
            == text->0@,
        custom is None && integer is None && float_text is None && text is None ==> r@ == seq![
            '0',
        ],
{
    // Order matters: `custom` holds vector values (gap TRBL), typed fields hold scalars.
    if let Some(c) = custom {
        return c;
    }
    if let Some(i) = integer {
        return format_i64(i);
    }
    if let Some(f) = float_text {
        return f;
    }
    if let Some(t) = text {
        return t;
    }
    let mut zero = String::new();
    push_char(&mut zero, '0');
    zero
}

/// The text is a JSON document.
pub uninterp spec fn json_parses(text: Seq<char>) -> bool;

/// The member `key` of the JSON object in `text`, when it is a string.
pub uninterp spec fn json_string_member(text: Seq<char>, key: Seq<char>) -> Option<Seq<char>>;

/// The member `key` of the JSON object in `text`, when it is an integer
/// that fits in an `i64`.
pub uninterp spec fn json_integer_member(text: Seq<char>, key: Seq<char>) -> Option<i64>;

/// The member `key` of the JSON object in `text`, when it is a number,
/// written as a float is written by `to_string`.
pub uninterp spec fn json_float_member_text(text: Seq<char>, key: Seq<char>) -> Option<
    Seq<char>,
>;

/// Is `text` JSON?
///
/// Trusted: calls `serde_json::from_str::<serde_json::Value>`; the result
/// is named, not described, by `json_parses`.
#[verifier::external_body]
fn json_is_valid(text: &str) -> (ok: bool)
    ensures
        ok == json_parses(text@),
{
    serde_json::from_str::<serde_json::Value>(text).is_ok()
}

/// The string member `key` of the JSON object in `text`.
///
/// Trusted: calls `serde_json::from_str::<serde_json::Value>`, then
/// `Value::get` and `Value::as_str`; the result is named, not described,
/// by `json_string_member`.
#[verifier::external_body]
fn json_str_member(text: &str, key: &str) -> (r: Option<String>)
    ensures
        r.deep_view() == json_string_member(text@, key@),
{
    let value: serde_json::Value = serde_json::from_str(text).ok()?;
    value.get(key)?.as_str().map(String::from)
}

/// The integer member `key` of the JSON object in `text`.
///
/// Trusted: calls `serde_json::from_str::<serde_json::Value>`, then
/// `Value::get` and `Value::as_i64`; the result is named, not described,
/// by `json_integer_member`.
#[verifier::external_body]
fn json_i64_member(text: &str, key: &str) -> (r: Option<i64>)
    ensures
        r == json_integer_member(text@, key@),
{
    let value: serde_json::Value = serde_json::from_str(text).ok()?;
    value.get(key)?.as_i64()
}

/// The number member `key` of the JSON object in `text`, as text.
///
/// Trusted: calls `serde_json::from_str::<serde_json::Value>`, then
/// `Value::get`, `Value::as_f64` and `to_string` on the number; the
/// result is named, not described, by `json_float_member_text`.
#[verifier::external_body]
fn json_number_member_text(text: &str, key: &str) -> (r: Option<String>)
    ensures
        r.deep_view() == json_float_member_text(text@, key@),
{
    let value: serde_json::Value = serde_json::from_str(text).ok()?;
    Some(value.get(key)?.as_f64()?.to_string())
}

/// Why the output of `hyprctl getoption -j` gave no value.
#[derive(Clone, Copy, Debug, PartialEq, Eq, Structural)]
pub enum OptionError {
    /// The output is not JSON.
    InvalidJson,
}

/// The textual value of an option from the JSON `hyprctl getoption -j`
/// prints: refused when the output is not JSON, else its `custom`, `int`,
/// `float` or `str` member, the first that is there, or `"0"`.
pub fn option_value_from_json(json: &str) -> (r: Result<String, OptionError>)
    ensures
        r is Err <==> !json_parses(json@),
        r matches Err(e) ==> e == OptionError::InvalidJson,
        r matches Ok(v) ==> v@ == spec_pick_option(
            json_string_member(json@, "custom"@),
            json_integer_member(json@, "int"@),
            json_float_member_text(json@, "float"@),
            json_string_member(json@, "str"@),
        ),
        r matches Ok(v) ==> (json_string_member(json@, "custom"@) is Some ==> v@
            == json_string_member(json@, "custom"@)->0),
{
    if !json_is_valid(json) {
        return Err(OptionError::InvalidJson);
    }
    let custom = json_str_member(json, "custom");
    let integer = json_i64_member(json, "int");
    let float_text = json_number_member_text(json, "float");
    let text = json_str_member(json, "str");
    Ok(pick_option_value(custom, integer, float_text, text))
}

/// The decimal digits of `n` are digits and read back as `n`.
proof fn lemma_decimal_digits_read_back(n: nat)
    ensures
        decimal_digits(n).len() >= 1,
        forall|i: int|
            0 <= i < decimal_digits(n).len() ==> is_digit(#[trigger] decimal_digits(n)[i]),
        digits_value(decimal_digits(n)) == n,
    decreases n,
{
    let last = (n % 10) as int;
    assert(digit_char(last) as u32 == last + '0' as u32);
    if n < 10 {
        assert(decimal_digits(n).drop_last() =~= Seq::<char>::empty());
        assert(decimal_digits(n).last() == digit_char(last));
        assert(digits_value(decimal_digits(n)) == digits_value(Seq::<char>::empty()) * 10 + last);
    } else {
        lemma_decimal_digits_read_back(n / 10);
        let d = decimal_digits(n);
        assert(d.drop_last() =~= decimal_digits(n / 10));
        assert(d.last() == digit_char(last));
        assert(digits_value(d) == digits_value(decimal_digits(n / 10)) * 10 + last);
        assert(n == (n / 10) * 10 + last);
        assert forall|i: int| 0 <= i < d.len() implies is_digit(#[trigger] d[i]) by {
            if i < d.len() - 1 {
                assert(d[i] == decimal_digits(n / 10)[i]);
            }
        }
    }
}

/// A text without white space is read as one word, still being read.
proof fn lemma_scan_one_word(s: Seq<char>)
    requires
        forall|i: int| 0 <= i < s.len() ==> !is_white_space(#[trigger] s[i]),
    ensures
        scan_words(s) == (Seq::<Seq<char>>::empty(), s),
    decreases s.len(),
{
    if s.len() > 0 {
        lemma_scan_one_word(s.drop_last());
        assert(s.drop_last().push(s.last()) =~= s);
    }
}

/// An integer written in decimal reads back as that integer; as a gap
/// value it gives that gap on all four edges, without a warning. This is
/// the way an integer option such as `general:gaps_in = 5` comes to gaps.
pub proof fn lemma_integer_value_reads_back(v: i32)
    ensures
        spec_parse_i32(decimal(v as int)) == Some(v),
        spec_parse_gaps(decimal(v as int)) == (Gaps { top: v, right: v, bottom: v, left: v }),
        !spec_parse_warns(decimal(v as int)),
{
    let n: nat = if v < 0 {
        (-v) as nat
    } else {
        v as nat
    };
    lemma_decimal_digits_read_back(n);
    let d = decimal_digits(n);
    let s = decimal(v as int);
    if v < 0 {
        assert(s.skip(1) =~= d);
        assert(s[0] == '-');
    } else {
        assert(s =~= d);
        assert(is_digit(s[0]));
    }
    assert(s.skip(sign_len(s)) =~= d);
    assert forall|i: int| 0 <= i < s.len() implies !is_white_space(#[trigger] s[i]) by {
        if v < 0 && i == 0 {
        } else if v < 0 {
            assert(s[i] == d[i - 1]);
        } else {
            assert(s[i] == d[i]);
        }
    }
    lemma_scan_one_word(s);
    assert(words(s) =~= seq![s]);
    let f = |w: Seq<char>| spec_parse_i32(w);
    assert(seq![s].drop_last() =~= Seq::<Seq<char>>::empty());
    assert(spec_parse_i32(s) == Some(v));
    assert(seq![s].filter_map(f) =~= Seq::<Seq<char>>::empty().filter_map(f) + seq![v]);
    assert(spec_gap_values(s) =~= seq![v]);
    assert(!is_white_space(s[0]));
}

/// The order in which an option's value is picked: a `custom` value wins
/// whatever the other members are; without one, an `int` (in decimal);
/// without that, a `float`; without that, a `str`; without any, `"0"`.
pub proof fn lemma_pick_order(
    custom: Option<Seq<char>>,
    integer: Option<i64>,
    float_text: Option<Seq<char>>,
    text: Option<Seq<char>>,
)
    ensures
        custom matches Some(c) ==> spec_pick_option(custom, integer, float_text, text) == c,
        custom is None && integer is Some ==> spec_pick_option(custom, integer, float_text, text)
            == decimal(integer->0 as int),
        custom is None && integer is None && float_text is Some ==> spec_pick_option(
            custom,
            integer,
            float_text,
            text,
        ) == float_text->0,
        custom is None && integer is None && float_text is None && text is Some
            ==> spec_pick_option(custom, integer, float_text, text) == text->0,
        custom is None && integer is None && float_text is None && text is None
            ==> spec_pick_option(custom, integer, float_text, text) == seq!['0'],
{
}

/// The words `ws` written one after another with a single space between
/// neighbours.
pub open spec fn spaced(ws: Seq<Seq<char>>) -> Seq<char>
    decreases ws.len(),
{
    if ws.len() == 0 {
        Seq::empty()
    } else if ws.len() == 1 {
        ws[0]
    } else {
        spaced(ws.drop_last()) + seq![' '] + ws.last()
    }
}

/// Reading on through characters that are not white space extends the
/// word being read.
proof fn lemma_scan_append_word(p: Seq<char>, w: Seq<char>)
    requires
        forall|i: int| 0 <= i < w.len() ==> !is_white_space(#[trigger] w[i]),
    ensures
        scan_words(p + w) == (scan_words(p).0, scan_words(p).1 + w),
    decreases w.len(),
{
    if w.len() == 0 {
        assert(p + w =~= p);
        assert(scan_words(p).1 + w =~= scan_words(p).1);
    } else {
        let w0 = w.drop_last();
        lemma_scan_append_word(p, w0);
        assert((p + w).drop_last() =~= p + w0);
        assert((p + w).last() == w.last());
        assert(scan_words(p).1 + w =~= (scan_words(p).1 + w0).push(w.last()));
    }
}

/// Words without white space, written with single spaces between them,
/// are read back as those words.
proof fn lemma_words_of_spaced(ws: Seq<Seq<char>>)
    requires
        ws.len() >= 1,
        forall|k: int| 0 <= k < ws.len() ==> (#[trigger] ws[k]).len() > 0,
        forall|k: int, i: int|
            0 <= k < ws.len() && 0 <= i < ws[k].len() ==> !is_white_space(#[trigger] ws[k][i]),
    ensures
        scan_words(spaced(ws)) == (ws.drop_last(), ws.last()),
        words(spaced(ws)) == ws,
    decreases ws.len(),
{
    let last = ws.last();
    assert(last == ws[ws.len() - 1]);
    if ws.len() == 1 {
        assert(forall|i: int| 0 <= i < last.len() ==> !is_white_space(#[trigger] last[i]));
        lemma_scan_append_word(Seq::empty(), last);
        assert(Seq::<char>::empty() + last =~= last);
        assert(ws.drop_last() =~= Seq::<Seq<char>>::empty());
        assert(ws =~= seq![last]);
    } else {
        let front = ws.drop_last();
        assert forall|k: int| 0 <= k < front.len() implies (#[trigger] front[k]).len() > 0 by {
            assert(front[k] == ws[k]);
        }
        assert forall|k: int, i: int|
            0 <= k < front.len() && 0 <= i < front[k].len() implies !is_white_space(
            #[trigger] front[k][i],
        ) by {
            assert(front[k] == ws[k]);
        }
        lemma_words_of_spaced(front);
        let p = spaced(front) + seq![' '];
        assert(p.drop_last() =~= spaced(front));
        assert(p.last() == ' ');
        assert(is_white_space(' '));
        assert(front.last() == front[front.len() - 1]);
        assert(scan_words(p) == (front.drop_last().push(front.last()), Seq::<char>::empty()));
        assert(front.drop_last().push(front.last()) =~= front);
        assert(forall|i: int| 0 <= i < last.len() ==> !is_white_space(#[trigger] last[i]));
        lemma_scan_append_word(p, last);
        assert(Seq::<char>::empty() + last =~= last);
        assert(front.push(last) =~= ws);
    }
}

/// Reading back every word of a list of decimal numbers gives the numbers.
proof fn lemma_values_of_decimals(vs: Seq<i32>)
    ensures
        vs.map_values(|v: i32| decimal(v as int)).filter_map(|w: Seq<char>| spec_parse_i32(w))
            == vs,
    decreases vs.len(),
{
    let ws = vs.map_values(|v: i32| decimal(v as int));
    let f = |w: Seq<char>| spec_parse_i32(w);
    if vs.len() == 0 {
        assert(ws.filter_map(f) =~= vs);
    } else {
        let front = vs.drop_last();
        lemma_values_of_decimals(front);
        assert(ws.drop_last() =~= front.map_values(|v: i32| decimal(v as int)));
        lemma_integer_value_reads_back(vs.last());
        assert(ws.last() == decimal(vs.last() as int));
        assert(ws.filter_map(f) == ws.drop_last().filter_map(f) + seq![vs.last()]);
        assert(front + seq![vs.last()] =~= vs);
    }
}

/// The decimal representation of an integer is a word: not empty, and
/// without white space.
proof fn lemma_decimal_is_word(v: i32)
    ensures
        decimal(v as int).len() > 0,
        forall|i: int|
            0 <= i < decimal(v as int).len() ==> !is_white_space(#[trigger] decimal(v as int)[i]),
{
    let n: nat = if v < 0 {
        (-v) as nat
    } else {
        v as nat
    };
    lemma_decimal_digits_read_back(n);
    let d = decimal_digits(n);
    let s = decimal(v as int);
    assert forall|i: int| 0 <= i < s.len() implies !is_white_space(#[trigger] s[i]) by {
        if v < 0 && i == 0 {
        } else if v < 0 {
            assert(s[i] == d[i - 1]);
        } else {
            assert(s[i] == d[i]);
        }
    }
}

/// One to four integers written in decimal with single spaces between
/// them are read CSS shorthand style: one value for all four edges; two
/// for vertical, horizontal; three for top, horizontal, bottom; four for
/// top, right, bottom, left.
pub proof fn lemma_spaced_values_read_shorthand(vs: Seq<i32>)
    requires
        1 <= vs.len() <= 4,
    ensures
        ({
            let g = spec_parse_gaps(spaced(vs.map_values(|v: i32| decimal(v as int))));
            &&& vs.len() == 1 ==> g == Gaps { top: vs[0], right: vs[0], bottom: vs[0], left: vs[0] }
            &&& vs.len() == 2 ==> g == Gaps { top: vs[0], right: vs[1], bottom: vs[0], left: vs[1] }
            &&& vs.len() == 3 ==> g == Gaps { top: vs[0], right: vs[1], bottom: vs[2], left: vs[1] }
            &&& vs.len() == 4 ==> g == Gaps { top: vs[0], right: vs[1], bottom: vs[2], left: vs[3] }
        }),
{
    let ws = vs.map_values(|v: i32| decimal(v as int));
    assert forall|k: int| 0 <= k < ws.len() implies (#[trigger] ws[k]).len() > 0 by {
        lemma_decimal_is_word(vs[k]);
    }
    assert forall|k: int, i: int|
        0 <= k < ws.len() && 0 <= i < ws[k].len() implies !is_white_space(#[trigger] ws[k][i]) by {
        lemma_decimal_is_word(vs[k]);
    }
    lemma_words_of_spaced(ws);
    lemma_values_of_decimals(vs);
    assert(spec_gap_values(spaced(ws)) == vs);
}

} // verus!
