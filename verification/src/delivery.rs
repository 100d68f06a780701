//! Getting the result to the user: the text around the cursor, the list the cursor
//! may be in, the paste history, and the steps of a delivery.

use vstd::prelude::*;
use std::collections::VecDeque;
use crate::events::DeliveryMode;
use crate::text::{
    chars_of, push_char, str_eq, string_from_chars, sub_chars, to_owned, trim, trim_spec,
};

verus! {

/// What surrounds the cursor in the focused editor.
#[derive(Clone, Debug)]
pub struct CursorContext {
    pub before: String,
    pub after: String,
    pub line_start: String,
    pub indentation: String,
    pub ends_with_punctuation: bool,
    pub is_in_list: bool,
    pub list_marker: String,
    pub follows_numbered_list: bool,
    pub current_number: Option<u32>,
}

/// An empty context: no text on either side, not in a list.
pub open spec fn is_empty_context(c: CursorContext) -> bool {
    &&& c.before@ == Seq::<char>::empty()
    &&& c.after@ == Seq::<char>::empty()
    &&& c.line_start@ == Seq::<char>::empty()
    &&& c.indentation@ == Seq::<char>::empty()
    &&& !c.ends_with_punctuation
    &&& !c.is_in_list
    &&& c.list_marker@ == Seq::<char>::empty()
    &&& !c.follows_numbered_list
    &&& c.current_number is None
}

impl Default for CursorContext {
    fn default() -> (r: Self)
        ensures
            is_empty_context(r),
    {
        CursorContext {
            before: String::new(),
            after: String::new(),
            line_start: String::new(),
            indentation: String::new(),
            ends_with_punctuation: false,
            is_in_list: false,
            list_marker: String::new(),
            follows_numbered_list: false,
            current_number: None,
        }
    }
}

/// The context around the cursor. No platform reading is wired in, so there is
/// never one.
pub fn get_cursor_context() -> (r: Option<CursorContext>)
    ensures
        r is None,
{
    None
}

// ---------------------------------------------------------------------------
// Numbers written with Chinese numerals
// ---------------------------------------------------------------------------

/// The value of a Chinese numeral character, common or financial form.
pub open spec fn han_digit(c: char) -> Option<nat> {
    if c == '一' || c == '壹' {
        Some(1)
    } else if c == '二' || c == '贰' {
        Some(2)
    } else if c == '三' || c == '叁' {
        Some(3)
    } else if c == '四' || c == '肆' {
        Some(4)
    } else if c == '五' || c == '伍' {
        Some(5)
    } else if c == '六' || c == '陆' {
        Some(6)
    } else if c == '七' || c == '柒' {
        Some(7)
    } else if c == '八' || c == '捌' {
        Some(8)
    } else if c == '九' || c == '玖' {
        Some(9)
    } else if c == '十' || c == '拾' {
        Some(10)
    } else {
        None
    }
}

/// Reads numeral characters as decimal digits, left to right (so `十` counts as a
/// digit worth ten): `None` when a character is not a numeral.
pub open spec fn han_value(s: Seq<char>) -> Option<nat>
    decreases s.len(),
{
    if s.len() == 0 {
        Some(0)
    } else {
        match (han_value(s.drop_last()), han_digit(s.last())) {
            (Some(v), Some(d)) => Some(v * 10 + d),
            _ => None,
        }
    }
}

/// Every all-numeral prefix of `s` has a value that fits in a `u32`, so reading
/// it never overflows.
pub open spec fn han_value_fits(s: Seq<char>) -> bool {
    forall|k: int|
        0 <= k <= s.len() ==> (#[trigger] han_value(s.take(k)) matches Some(v) ==> v <= u32::MAX)
}

/// The number that `chinese_to_number` gives: the value of a non-empty all-numeral
/// text, when positive.
pub open spec fn han_number(s: Seq<char>) -> Option<u32> {
    if s.len() == 0 {
        None
    } else {
        match han_value(s) {
            Some(v) => if v > 0 {
                Some(v as u32)
            } else {
                None
            },
            None => None,
        }
    }
}

fn han_digit_of(c: char) -> (r: Option<u32>)
    ensures
        match han_digit(c) {
            Some(d) => r == Some(d as u32),
            None => r is None,
        },
{
    match c {
        '一' | '壹' => Some(1),
        '二' | '贰' => Some(2),
        '三' | '叁' => Some(3),
        '四' | '肆' => Some(4),
        '五' | '伍' => Some(5),
        '六' | '陆' => Some(6),
        '七' | '柒' => Some(7),
        '八' | '捌' => Some(8),
        '九' | '玖' => Some(9),
        '十' | '拾' => Some(10),
        _ => None,
    }
}

/// Reads a number written with Chinese numerals, digit by digit.
pub fn chinese_to_number(s: &str) -> (r: Option<u32>)
    requires
        han_value_fits(s@),
    ensures
        r == han_number(s@),
{
    let v = chars_of(s);
    if v.len() == 0 {
        return None;
    }
    let mut result: u32 = 0;
    for i in 0..v.len()
        invariant
            v@ == s@,
            han_value_fits(s@),
            han_value(s@.take(i as int)) == Some(result as nat),
    {
        assert(s@.take(i + 1).drop_last() =~= s@.take(i as int));
        assert(s@.take(i + 1).last() == s@[i as int]);
        let d = match han_digit_of(v[i]) {
            Some(d) => d,
            None => {
                assert(han_value(s@.take(i + 1)) is None);
                assert(forall|k: int| i + 1 <= k <= s@.len() ==> han_value(#[trigger] s@.take(k)) is None) by {
                    assert forall|k: int| i + 1 <= k <= s@.len() implies han_value(#[trigger] s@.take(k)) is None by {
                        lemma_han_value_none_extends(s@, i + 1, k);
                    }
                }
                assert(s@.take(s@.len() as int) =~= s@);
                return None;
            },
        };
        assert(han_value(s@.take(i + 1)) == Some((result * 10 + d) as nat));
        assert(result * 10 + d <= u32::MAX) by {
            assert(han_value(s@.take(i + 1)) matches Some(w) ==> w <= u32::MAX);
        }
        result = result * 10 + d;
    }
    assert(s@.take(v.len() as int) =~= s@);
    if result > 0 {
        Some(result)
    } else {
        None
    }
}

proof fn lemma_han_value_none_extends(s: Seq<char>, j: int, k: int)
    requires
        0 <= j <= k <= s.len(),
        han_value(s.take(j)) is None,
    ensures
        han_value(s.take(k)) is None,
    decreases k - j,
{
    if j < k {
        lemma_han_value_none_extends(s, j, k - 1);
        assert(s.take(k).drop_last() =~= s.take(k - 1));
    }
}


// ---------------------------------------------------------------------------
// List markers at the start of a line
// ---------------------------------------------------------------------------

/// Whether `c` is a decimal digit in the sense of the `regex` crate's `\d`
/// (Unicode general category Nd).
pub uninterp spec fn regex_decimal_digit(c: char) -> bool;

/// `regex::Regex::is_match` of the pattern `^\d$` on the one-character text `c`.
///
/// Claims that the answer depends on `c` alone, and, as the crate documents `\d`
/// to be the Unicode class Nd, that among the ASCII characters exactly the
/// digits `0` to `9` belong to it.
#[verifier::external_body]
fn is_decimal_digit(c: char) -> (r: bool)
    ensures
        r == regex_decimal_digit(c),
        '0' <= c <= '9' ==> r,
        (c as u32) < 0x80 && !('0' <= c <= '9') ==> !r,
{
    let mut buf = [0u8; 4];
    match regex::Regex::new(r"^\d$") {
        Ok(re) => re.is_match(c.encode_utf8(&mut buf)),
        Err(_) => false,
    }
}

/// The kinds of numeral that may number a list item.
#[derive(Clone, Copy, Debug, PartialEq, Eq, Structural)]
pub enum NumeralClass {
    /// Decimal digits (`\d`: `0` to `9`, and beyond ASCII the other Nd characters).
    Digit,
    /// The Chinese numerals 一 to 十, 百 and 千.
    Han,
    /// ASCII letters.
    Latin,
}

/// Membership of `c` in a numeral class. The ASCII digits are decimal digits
/// whatever else `\d` covers.
pub open spec fn in_class(cls: NumeralClass, c: char) -> bool {
    match cls {
        NumeralClass::Digit => ('0' <= c <= '9') || ((c as u32) >= 0x80 && regex_decimal_digit(c)),
        NumeralClass::Han => c == '一' || c == '二' || c == '三' || c == '四' || c == '五' || c
            == '六' || c == '七' || c == '八' || c == '九' || c == '十' || c == '百' || c == '千',
        NumeralClass::Latin => ('A' <= c <= 'Z') || ('a' <= c <= 'z'),
    }
}

fn class_member(cls: NumeralClass, c: char) -> (r: bool)
    ensures
        r == in_class(cls, c),
{
    match cls {
        NumeralClass::Digit => is_decimal_digit(c),
        NumeralClass::Han => c == '一' || c == '二' || c == '三' || c == '四' || c == '五' || c
            == '六' || c == '七' || c == '八' || c == '九' || c == '十' || c == '百' || c == '千',
        NumeralClass::Latin => ('A' <= c && c <= 'Z') || ('a' <= c && c <= 'z'),
    }
}

/// A character that may close a list number: `.`, `．` or `、`.
pub open spec fn is_list_sep(c: char) -> bool {
    c == '.' || c == '．' || c == '、'
}

/// The length of the longest prefix of `s` made of `cls` characters.
pub open spec fn class_run(s: Seq<char>, cls: NumeralClass) -> nat
    decreases s.len(),
{
    if s.len() > 0 && in_class(cls, s[0]) {
        1 + class_run(s.drop_first(), cls)
    } else {
        0
    }
}

/// The largest `k` in `1..=end` with a separator at `s[k]`.
pub open spec fn sep_at_or_before(s: Seq<char>, end: int) -> Option<int>
    decreases end,
{
    if end <= 0 {
        None
    } else if end < s.len() && is_list_sep(s[end]) {
        Some(end)
    } else {
        sep_at_or_before(s, end - 1)
    }
}

/// The number that the pattern `^(C+)[.．、]` captures at the start of `s` for the
/// class `C`: the longest run of class characters that a separator follows.
pub open spec fn numeral_group(s: Seq<char>, cls: NumeralClass) -> Option<Seq<char>> {
    match sep_at_or_before(s, class_run(s, cls) as int) {
        Some(k) => Some(s.take(k)),
        None => None,
    }
}

/// The list number at the start of `t`, trying digits, then Chinese numerals,
/// then letters.
pub open spec fn numbered_group(t: Seq<char>) -> Option<Seq<char>> {
    match numeral_group(t, NumeralClass::Digit) {
        Some(g) => Some(g),
        None => match numeral_group(t, NumeralClass::Han) {
            Some(g) => Some(g),
            None => numeral_group(t, NumeralClass::Latin),
        },
    }
}

/// Every character is an ASCII digit.
pub open spec fn all_ascii_digits(s: Seq<char>) -> bool {
    forall|k: int| 0 <= k < s.len() ==> '0' <= #[trigger] s[k] <= '9'
}

/// The value of a text of ASCII digits.
pub open spec fn ascii_value(s: Seq<char>) -> nat
    decreases s.len(),
{
    if s.len() == 0 {
        0
    } else {
        ascii_value(s.drop_last()) * 10 + (s.last() as u32 - 48) as nat
    }
}

/// The number of a list item: a run of ASCII digits parses as a `u32` (none when too
/// large); any other run is read as Chinese numerals.
pub open spec fn list_number(g: Seq<char>) -> Option<u32> {
    if all_ascii_digits(g) {
        if ascii_value(g) <= u32::MAX {
            Some(ascii_value(g) as u32)
        } else {
            None
        }
    } else {
        han_number(g)
    }
}

/// A bullet that is written as `- `.
pub open spec fn dash_bullet(t: Seq<char>) -> bool {
    t.len() >= 2 && t[1] == ' ' && (t[0] == '-' || t[0] == '•' || t[0] == '·')
}

/// A bare bullet character, written as `• `.
pub open spec fn dot_bullet(t: Seq<char>) -> bool {
    t.len() >= 1 && (t[0] == '·' || t[0] == '•')
}

/// A star bullet, written as `* `.
pub open spec fn star_bullet(t: Seq<char>) -> bool {
    t.len() >= 1 && t[0] == '*' && (t.len() == 1 || t[1] == ' ')
}

/// The list item that a line starts, as (marker, numbered, number).
pub open spec fn list_pattern_spec(line: Seq<char>) -> Option<(Seq<char>, bool, Option<u32>)> {
    let t = trim_spec(line);
    if dash_bullet(t) {
        Some((seq!['-', ' '], false, None))
    } else if dot_bullet(t) {
        Some((seq!['•', ' '], false, None))
    } else if star_bullet(t) {
        Some((seq!['*', ' '], false, None))
    } else {
        match numbered_group(t) {
            Some(g) => Some((g + seq!['.', ' '], true, list_number(g))),
            None => None,
        }
    }
}

/// Reading the line's list number does not overflow: a number that is not all ASCII
/// digits has a value that fits in a `u32`.
pub open spec fn list_number_readable(line: Seq<char>) -> bool {
    let t = trim_spec(line);
    !(dash_bullet(t) || dot_bullet(t) || star_bullet(t)) ==> (numbered_group(t) matches Some(g)
        ==> all_ascii_digits(g) || han_value_fits(g))
}

/// A list item found at the start of a line.
#[derive(Clone, Debug)]
pub struct ListInfo {
    pub marker: String,
    pub numbered: bool,
    pub number: Option<u32>,
}

proof fn lemma_class_step(s: Seq<char>, cls: NumeralClass, i: int)
    requires
        0 <= i < s.len(),
        in_class(cls, s[i]),
    ensures
        class_run(s.skip(i), cls) == 1 + class_run(s.skip(i + 1), cls),
{
    assert(s.skip(i).drop_first() =~= s.skip(i + 1));
}

/// The length of the number that `cls` captures at the start of `v`.
fn numeral_group_len(v: &Vec<char>, cls: NumeralClass) -> (r: Option<usize>)
    ensures
        match numeral_group(v@, cls) {
            Some(g) => r matches Some(k) && g == v@.take(k as int) && 1 <= k < v.len(),
            None => r is None,
        },
{
    let n = v.len();
    let mut run: usize = 0;
    assert(v@.skip(0) =~= v@);
    while run < n && class_member(cls, v[run])
        invariant
            n == v.len(),
            run <= n,
            class_run(v@, cls) == run + class_run(v@.skip(run as int), cls),
        decreases n - run,
    {
        proof {
            lemma_class_step(v@, cls, run as int);
        }
        run = run + 1;
    }
    assert(class_run(v@, cls) == run) by {
        if run == n {
            assert(v@.skip(run as int).len() == 0);
        }
    }
    let mut k: usize = run;
    while k > 0
        invariant
            n == v.len(),
            k <= run <= n,
            class_run(v@, cls) == run,
            sep_at_or_before(v@, run as int) == sep_at_or_before(v@, k as int),
        decreases k,
    {
        if k < n && (v[k] == '.' || v[k] == '．' || v[k] == '、') {
            assert(sep_at_or_before(v@, k as int) == Some(k as int));
            return Some(k);
        }
        k = k - 1;
    }
    assert(sep_at_or_before(v@, 0) is None);
    None
}

proof fn lemma_ascii_value_monotone(s: Seq<char>, j: int, k: int)
    requires
        0 <= j <= k <= s.len(),
        all_ascii_digits(s),
    ensures
        ascii_value(s.take(j)) <= ascii_value(s.take(k)),
    decreases k - j,
{
    if j < k {
        lemma_ascii_value_monotone(s, j, k - 1);
        assert(s.take(k).drop_last() =~= s.take(k - 1));
        assert(s.take(k).last() == s[k - 1]);
    }
}

/// Parses ASCII digits as a `u32`, as `str::parse` does: `None` when too large.
fn parse_ascii_u32(v: &Vec<char>) -> (r: Option<u32>)
    requires
        all_ascii_digits(v@),
    ensures
        ascii_value(v@) <= u32::MAX ==> r == Some(ascii_value(v@) as u32),
        ascii_value(v@) > u32::MAX ==> r is None,
{
    let mut value: u64 = 0;
    for i in 0..v.len()
        invariant
            all_ascii_digits(v@),
            value == ascii_value(v@.take(i as int)),
            value <= u32::MAX,
    {
        assert(v@.take(i + 1).drop_last() =~= v@.take(i as int));
        assert(v@.take(i + 1).last() == v@[i as int]);
        assert('0' <= v@[i as int] <= '9');
        let d = (v[i] as u32 - 48) as u64;
        let next = value * 10 + d;
        if next > 0xFFFF_FFFF {
            proof {
                lemma_ascii_value_monotone(v@, i + 1, v@.len() as int);
                assert(v@.take(v@.len() as int) =~= v@);
            }
            return None;
        }
        value = next;
    }
    assert(v@.take(v.len() as int) =~= v@);
    Some(value as u32)
}

proof fn lemma_han_value_fits_none(s: Seq<char>)
    requires
        s.len() > 0,
        han_digit(s[0]) is None,
    ensures
        han_value_fits(s),
{
    assert forall|k: int| 0 <= k <= s.len() implies (#[trigger] han_value(s.take(k)) matches Some(
        v,
    ) ==> v <= u32::MAX) by {
        if k >= 1 {
            assert(s.take(1).drop_last() =~= Seq::<char>::empty());
            assert(han_value(s.take(1)) is None);
            lemma_han_value_none_extends(s, 1, k);
        } else {
            assert(s.take(0) =~= Seq::<char>::empty());
        }
    }
}

/// The number of a list item whose number is the text `g`.
fn list_number_of(g: &Vec<char>) -> (r: Option<u32>)
    requires
        all_ascii_digits(g@) || han_value_fits(g@),
    ensures
        r == list_number(g@),
{
    let mut all_ascii = true;
    for i in 0..g.len()
        invariant
            all_ascii == (forall|k: int| 0 <= k < i ==> '0' <= #[trigger] g@[k] <= '9'),
    {
        if !('0' <= g[i] && g[i] <= '9') {
            all_ascii = false;
        }
    }
    if all_ascii {
        parse_ascii_u32(g)
    } else {
        let s = string_from_chars(g);
        chinese_to_number(s.as_str())
    }
}

/// Recognizes a list item at the start of `line`: a bullet (`- `, `• `, `· `, a
/// bare `•` or `·`, `*`) or a number closed by `.`, `．` or `、`.
pub fn check_list_pattern(line: &str) -> (r: Option<ListInfo>)
    requires
        list_number_readable(line@),
    ensures
        match list_pattern_spec(line@) {
            Some((marker, numbered, number)) => r matches Some(info) && info.marker@ == marker
                && info.numbered == numbered && info.number == number,
            None => r is None,
        },
{
    let t = trim(line);
    let v = chars_of(t);
    let n = v.len();
    if n >= 2 && v[1] == ' ' && (v[0] == '-' || v[0] == '•' || v[0] == '·') {
        let mut marker = String::new();
        push_char(&mut marker, '-');
        push_char(&mut marker, ' ');
        return Some(ListInfo { marker, numbered: false, number: None });
    }
    if n >= 1 && (v[0] == '·' || v[0] == '•') {
        let mut marker = String::new();
        push_char(&mut marker, '•');
        push_char(&mut marker, ' ');
        return Some(ListInfo { marker, numbered: false, number: None });
    }
    if n >= 1 && v[0] == '*' && (n == 1 || v[1] == ' ') {
        let mut marker = String::new();
        push_char(&mut marker, '*');
        push_char(&mut marker, ' ');
        return Some(ListInfo { marker, numbered: false, number: None });
    }
    let k = match numeral_group_len(&v, NumeralClass::Digit) {
        Some(k) => k,
        None => match numeral_group_len(&v, NumeralClass::Han) {
            Some(k) => k,
            None => match numeral_group_len(&v, NumeralClass::Latin) {
                Some(k) => {
                    proof {
                        assert(('A' <= v@[0] <= 'Z') || ('a' <= v@[0] <= 'z'));
                        lemma_han_value_fits_none(v@.take(k as int));
                    }
                    k
                },
                None => {
                    return None;
                },
            },
        },
    };
    let g = sub_chars(&v, 0, k);
    assert(g@ =~= v@.take(k as int));
    let number = list_number_of(&g);
    let mut marker = string_from_chars(&g);
    push_char(&mut marker, '.');
    push_char(&mut marker, ' ');
    Some(ListInfo { marker, numbered: true, number })
}


/// The index of the last line break before `end`, or -1.
pub open spec fn last_newline_before(s: Seq<char>, end: int) -> int
    decreases end,
{
    if end <= 0 {
        -1
    } else if s[end - 1] == '\n' {
        end - 1
    } else {
        last_newline_before(s, end - 1)
    }
}

/// The list found in the last two lines of `before`, as (in list, marker, numbered,
/// number): the line before a blank last line, else the last line itself.
/// Text without a line break gives no list.
pub open spec fn list_context_spec(before: Seq<char>) -> (bool, Seq<char>, bool, Option<u32>) {
    let last_nl = last_newline_before(before, before.len() as int);
    let none = (false, Seq::<char>::empty(), false, None::<u32>);
    if last_nl < 0 {
        none
    } else {
        let last = before.skip(last_nl + 1);
        let prev = before.subrange(last_newline_before(before, last_nl) + 1, last_nl);
        if trim_spec(last).len() == 0 && list_pattern_spec(prev) is Some {
            let (m, n, k) = list_pattern_spec(prev).unwrap();
            (true, m, n, k)
        } else {
            match list_pattern_spec(last) {
                Some((m, n, k)) => (true, m, n, k),
                None => none,
            }
        }
    }
}

/// The lines that `detect_list_context` reads have readable list numbers.
pub open spec fn list_context_readable(before: Seq<char>) -> bool {
    let last_nl = last_newline_before(before, before.len() as int);
    last_nl >= 0 ==> {
        let last = before.skip(last_nl + 1);
        let prev = before.subrange(last_newline_before(before, last_nl) + 1, last_nl);
        &&& list_number_readable(last)
        &&& trim_spec(last).len() == 0 ==> list_number_readable(prev)
    }
}

proof fn lemma_last_newline_bounds(s: Seq<char>, end: int)
    requires
        0 <= end <= s.len(),
    ensures
        -1 <= last_newline_before(s, end) < end,
        last_newline_before(s, end) >= 0 ==> s[last_newline_before(s, end)] == '\n',
    decreases end,
{
    if end > 0 && s[end - 1] != '\n' {
        lemma_last_newline_bounds(s, end - 1);
    }
}

/// The last line break in `v` before `end`, if any.
fn last_newline(v: &Vec<char>, end: usize) -> (r: Option<usize>)
    requires
        end <= v.len(),
    ensures
        match r {
            Some(i) => last_newline_before(v@, end as int) == i as int,
            None => last_newline_before(v@, end as int) == -1,
        },
{
    let mut e = end;
    while e > 0
        invariant
            e <= end <= v.len(),
            last_newline_before(v@, end as int) == last_newline_before(v@, e as int),
        decreases e,
    {
        if v[e - 1] == '\n' {
            return Some(e - 1);
        }
        e = e - 1;
    }
    None
}

/// Whether the text before the cursor ends inside a list, and which.
pub fn detect_list_context(before: &str) -> (r: (bool, String, bool, Option<u32>))
    requires
        list_context_readable(before@),
    ensures
        (r.0, r.1@, r.2, r.3) == list_context_spec(before@),
{
    let v = chars_of(before);
    let n = v.len();
    let last_nl = match last_newline(&v, n) {
        Some(i) => i,
        None => {
            return (false, String::new(), false, None);
        },
    };
    proof {
        lemma_last_newline_bounds(v@, n as int);
        lemma_last_newline_bounds(v@, last_nl as int);
    }
    let prev_start = match last_newline(&v, last_nl) {
        Some(i) => i + 1,
        None => 0,
    };
    let last_chars = sub_chars(&v, last_nl + 1, n);
    let prev_chars = sub_chars(&v, prev_start, last_nl);
    assert(last_chars@ =~= before@.skip(last_nl + 1));
    let last_line = string_from_chars(&last_chars);
    let prev_line = string_from_chars(&prev_chars);
    if trim(last_line.as_str()).unicode_len() == 0 {
        if let Some(info) = check_list_pattern(prev_line.as_str()) {
            return (true, info.marker, info.numbered, info.number);
        }
    }
    if let Some(info) = check_list_pattern(last_line.as_str()) {
        return (true, info.marker, info.numbered, info.number);
    }
    (false, String::new(), false, None)
}


// ---------------------------------------------------------------------------
// Paste history
// ---------------------------------------------------------------------------

/// How many delivered texts are remembered.
pub const CLIPBOARD_HISTORY_LIMIT: usize = 10;

/// A delivered text, when it was put on the clipboard (milliseconds of a
/// monotonic clock), and whether it was pasted.
pub struct ClipboardEntry {
    pub text: String,
    pub timestamp: u64,
    pub was_pasted: bool,
}

/// What a clipboard entry records.
pub struct EntryView {
    pub text: Seq<char>,
    pub timestamp: u64,
    pub was_pasted: bool,
}

impl View for ClipboardEntry {
    type V = EntryView;

    open spec fn view(&self) -> EntryView {
        EntryView { text: self.text@, timestamp: self.timestamp, was_pasted: self.was_pasted }
    }
}

/// The delivered texts, most recent first.
pub struct ClipboardHistory {
    pub entries: VecDeque<ClipboardEntry>,
}

impl View for ClipboardHistory {
    type V = Seq<EntryView>;

    open spec fn view(&self) -> Seq<EntryView> {
        self.entries@.map_values(|e: ClipboardEntry| e@)
    }
}

impl ClipboardHistory {
    /// At most `CLIPBOARD_HISTORY_LIMIT` entries.
    pub open spec fn wf(&self) -> bool {
        self.entries@.len() <= CLIPBOARD_HISTORY_LIMIT
    }

    /// An empty history.
    pub fn new() -> (r: Self)
        ensures
            r.wf(),
            r@ == Seq::<EntryView>::empty(),
    {
        let r = ClipboardHistory { entries: VecDeque::with_capacity(CLIPBOARD_HISTORY_LIMIT) };
        assert(r@ =~= Seq::<EntryView>::empty());
        r
    }
}

/// The history after `text` was put on the clipboard at `now`: a new unpasted
/// entry in front, and the oldest entry gone when there are more than the limit.
pub open spec fn recorded(h: Seq<EntryView>, text: Seq<char>, now: u64) -> Seq<EntryView> {
    let h1 = seq![EntryView { text, timestamp: now, was_pasted: false }] + h;
    if h1.len() > CLIPBOARD_HISTORY_LIMIT {
        h1.drop_last()
    } else {
        h1
    }
}

/// The most recent unpasted entry holding `text`.
pub open spec fn first_unpasted(h: Seq<EntryView>, text: Seq<char>, from: int) -> Option<int>
    decreases h.len() - from,
{
    if from < 0 || from >= h.len() {
        None
    } else if h[from].text == text && !h[from].was_pasted {
        Some(from)
    } else {
        first_unpasted(h, text, from + 1)
    }
}

/// The history after `text` was pasted: its most recent unpasted entry is marked.
pub open spec fn marked(h: Seq<EntryView>, text: Seq<char>) -> Seq<EntryView> {
    match first_unpasted(h, text, 0) {
        Some(i) => h.update(i, EntryView { was_pasted: true, ..h[i] }),
        None => h,
    }
}

/// Whole seconds from `timestamp` to `now`, as `Instant::elapsed().as_secs()`.
pub open spec fn elapsed_secs(timestamp: u64, now: u64) -> int {
    if now >= timestamp {
        (now - timestamp) / 1000
    } else {
        0
    }
}

/// The user seems unhappy with the last result: the latest entry was not just
/// pasted (within 5 s), but one of the three latest was pasted within 15 s.
pub open spec fn dissatisfied(h: Seq<EntryView>, now: u64) -> bool {
    if h.len() == 0 {
        false
    } else if h[0].was_pasted && elapsed_secs(h[0].timestamp, now) < 5 {
        false
    } else {
        exists|i: int|
            0 <= i < h.len() && i < 3 && #[trigger] h[i].was_pasted && elapsed_secs(
                h[i].timestamp,
                now,
            ) < 15
    }
}

fn elapsed_whole_secs(timestamp: u64, now: u64) -> (r: u64)
    ensures
        r == elapsed_secs(timestamp, now),
{
    if now >= timestamp {
        (now - timestamp) / 1000
    } else {
        0
    }
}

/// Remembers that `text` was put on the clipboard at `now`.
pub fn record_paste_attempt(history: &mut ClipboardHistory, text: &str, now: u64)
    requires
        old(history).wf(),
    ensures
        final(history).wf(),
        final(history)@ == recorded(old(history)@, text@, now),
{
    let ghost h = history@;
    history.entries.push_front(ClipboardEntry { text: to_owned(text), timestamp: now, was_pasted: false });
    assert(history@ =~= seq![EntryView { text: text@, timestamp: now, was_pasted: false }] + h);
    if history.entries.len() > CLIPBOARD_HISTORY_LIMIT {
        let ghost before = history.entries@;
        history.entries.pop_back();
        assert(history.entries@ =~= before.drop_last());
        assert(history@ =~= (seq![EntryView { text: text@, timestamp: now, was_pasted: false }]
            + h).drop_last());
    }
}

/// Marks the most recent unpasted entry holding `text` as pasted.
pub fn mark_as_pasted(history: &mut ClipboardHistory, text: &str)
    requires
        old(history).wf(),
    ensures
        final(history).wf(),
        final(history)@ == marked(old(history)@, text@),
{
    let n = history.entries.len();
    let ghost h = history@;
    for i in 0..n
        invariant
            n == history.entries@.len(),
            h == history@,
            h == old(history)@,
            history.wf(),
            first_unpasted(h, text@, 0) == first_unpasted(h, text@, i as int),
    {
        let hit = str_eq(history.entries[i].text.as_str(), text) && !history.entries[i].was_pasted;
        if hit {
            assert(first_unpasted(h, text@, i as int) == Some(i as int));
            let ghost e0 = history.entries@;
            let old_entry = history.entries.remove(i).unwrap();
            assert(history.entries@ == e0.remove(i as int));
            history.entries.insert(
                i,
                ClipboardEntry {
                    text: old_entry.text,
                    timestamp: old_entry.timestamp,
                    was_pasted: true,
                },
            );
            assert(history.entries@ == e0.remove(i as int).insert(i as int, ClipboardEntry {
                text: old_entry.text,
                timestamp: old_entry.timestamp,
                was_pasted: true,
            }));
            assert(history.entries@.len() == n);
            assert(history@ =~= marked(h, text@));
            return;
        }
    }
    assert(first_unpasted(h, text@, n as int) is None);
}

/// Whether the user seems unhappy with the last result at time `now`.
pub fn detect_dissatisfaction(history: &ClipboardHistory, now: u64) -> (r: bool)
    ensures
        r == dissatisfied(history@, now),
{
    let n = history.entries.len();
    if n == 0 {
        return false;
    }
    if history.entries[0].was_pasted && elapsed_whole_secs(history.entries[0].timestamp, now) < 5 {
        return false;
    }
    let m = if n < 3 { n } else { 3 };
    for i in 0..m
        invariant
            m <= n == history.entries@.len(),
            m <= 3,
            m == n || m == 3,
            n > 0,
            !(history@[0].was_pasted && elapsed_secs(history@[0].timestamp, now) < 5),
            forall|k: int|
                0 <= k < i ==> !(#[trigger] history@[k].was_pasted && elapsed_secs(
                    history@[k].timestamp,
                    now,
                ) < 15),
    {
        if history.entries[i].was_pasted && elapsed_whole_secs(history.entries[i].timestamp, now)
            < 15 {
            assert(history@[i as int].was_pasted);
            return true;
        }
    }
    false
}

/// Putting a text on the clipboard and then pasting it means the user is not
/// unhappy while the paste is under five seconds old.
pub proof fn law_fresh_paste_is_not_dissatisfaction(
    h: Seq<EntryView>,
    text: Seq<char>,
    at: u64,
    now: u64,
)
    requires
        h.len() <= CLIPBOARD_HISTORY_LIMIT,
        at <= now,
        now - at < 5000,
    ensures
        !dissatisfied(marked(recorded(h, text, at), text), now),
        recorded(h, text, at).len() <= CLIPBOARD_HISTORY_LIMIT,
{
    let r = recorded(h, text, at);
    assert(r[0] == EntryView { text, timestamp: at, was_pasted: false });
    assert(first_unpasted(r, text, 0) == Some(0int));
    assert(marked(r, text)[0].was_pasted);
}


// ---------------------------------------------------------------------------
// Delivering a text
// ---------------------------------------------------------------------------

/// The next piece of outside work of a delivery. Each one is answered with
/// whether it succeeded (for the probes: whether the answer was yes).
#[derive(Clone, Copy, Debug, PartialEq, Eq, Structural)]
pub enum DeliveryStep {
    /// Open the system clipboard.
    OpenClipboard,
    /// Put the text on the clipboard.
    WriteClipboard,
    /// Is the foreground window another application's?
    ProbeForeground,
    /// Wait briefly, then send the paste shortcut.
    PasteAfterDelay,
    /// Is the focused element an editable control?
    ProbeEditableFocus,
    /// Send the paste shortcut.
    PasteIntoFocus,
    /// Nothing left to do.
    Finished,
}

/// Why a delivery failed.
#[derive(Clone, Copy, Debug, PartialEq, Eq, Structural)]
pub enum DeliveryError {
    /// The clipboard could not be opened.
    ClipboardUnavailable,
    /// The text could not be put on the clipboard.
    ClipboardWriteFailed,
}

/// A delivery of `text` in progress.
pub struct Delivery {
    pub text: String,
    pub auto_paste: bool,
    pub step: DeliveryStep,
    pub outcome: Option<Result<DeliveryMode, DeliveryError>>,
}

/// The step after `step` was answered with `ok`.
pub open spec fn next_step(step: DeliveryStep, auto_paste: bool, ok: bool) -> DeliveryStep {
    match step {
        DeliveryStep::OpenClipboard => if ok {
            DeliveryStep::WriteClipboard
        } else {
            DeliveryStep::Finished
        },
        DeliveryStep::WriteClipboard => if ok && auto_paste {
            DeliveryStep::ProbeForeground
        } else {
            DeliveryStep::Finished
        },
        DeliveryStep::ProbeForeground => if ok {
            DeliveryStep::PasteAfterDelay
        } else {
            DeliveryStep::ProbeEditableFocus
        },
        DeliveryStep::PasteAfterDelay => if ok {
            DeliveryStep::Finished
        } else {
            DeliveryStep::ProbeEditableFocus
        },
        DeliveryStep::ProbeEditableFocus => if ok {
            DeliveryStep::PasteIntoFocus
        } else {
            DeliveryStep::Finished
        },
        DeliveryStep::PasteIntoFocus => DeliveryStep::Finished,
        DeliveryStep::Finished => DeliveryStep::Finished,
    }
}

/// The outcome that answering `step` with `ok` settles, if it settles one.
pub open spec fn step_outcome(step: DeliveryStep, ok: bool) -> Option<
    Result<DeliveryMode, DeliveryError>,
> {
    match step {
        DeliveryStep::OpenClipboard => if ok {
            None
        } else {
            Some(Err(DeliveryError::ClipboardUnavailable))
        },
        DeliveryStep::WriteClipboard => if ok {
            None
        } else {
            Some(Err(DeliveryError::ClipboardWriteFailed))
        },
        DeliveryStep::ProbeForeground => None,
        DeliveryStep::PasteAfterDelay => if ok {
            Some(Ok(DeliveryMode::Pasted))
        } else {
            None
        },
        DeliveryStep::ProbeEditableFocus => if ok {
            None
        } else {
            Some(Ok(DeliveryMode::ClipboardOnly))
        },
        DeliveryStep::PasteIntoFocus => if ok {
            Some(Ok(DeliveryMode::Pasted))
        } else {
            Some(Ok(DeliveryMode::ClipboardOnly))
        },
        DeliveryStep::Finished => None,
    }
}

/// What the delivery's outcome becomes after `step` was answered with `ok`: a
/// text left on the clipboard without auto-paste is delivered clipboard-only.
pub open spec fn settled_outcome(step: DeliveryStep, auto_paste: bool, ok: bool) -> Option<
    Result<DeliveryMode, DeliveryError>,
> {
    if step == DeliveryStep::WriteClipboard && ok && !auto_paste {
        Some(Ok(DeliveryMode::ClipboardOnly))
    } else {
        step_outcome(step, ok)
    }
}

/// How many answers a delivery at `step` still needs at most.
pub open spec fn steps_left(step: DeliveryStep) -> nat {
    match step {
        DeliveryStep::OpenClipboard => 6,
        DeliveryStep::WriteClipboard => 5,
        DeliveryStep::ProbeForeground => 4,
        DeliveryStep::PasteAfterDelay => 3,
        DeliveryStep::ProbeEditableFocus => 2,
        DeliveryStep::PasteIntoFocus => 1,
        DeliveryStep::Finished => 0,
    }
}

/// Starts delivering `text`: it is remembered in the history at `now`, and the
/// clipboard is opened first.
pub fn deliver_text(history: &mut ClipboardHistory, text: &str, auto_paste: bool, now: u64) -> (r:
    Delivery)
    requires
        old(history).wf(),
    ensures
        final(history).wf(),
        final(history)@ == recorded(old(history)@, text@, now),
        r.text@ == text@,
        r.auto_paste == auto_paste,
        r.step == DeliveryStep::OpenClipboard,
        r.outcome is None,
{
    record_paste_attempt(history, text, now);
    Delivery {
        text: to_owned(text),
        auto_paste,
        step: DeliveryStep::OpenClipboard,
        outcome: None,
    }
}

impl Delivery {
    /// Every unfinished delivery is still undecided, and a finished one is decided.
    pub open spec fn wf(&self) -> bool {
        (self.step == DeliveryStep::Finished) == (self.outcome is Some)
    }

    /// Takes the answer to the current step. A successful paste marks the text as
    /// pasted in the history.
    pub fn advance(&mut self, history: &mut ClipboardHistory, ok: bool)
        requires
            old(self).wf(),
            old(history).wf(),
        ensures
            final(self).wf(),
            final(history).wf(),
            final(self).text@ == old(self).text@,
            final(self).auto_paste == old(self).auto_paste,
            final(self).step == next_step(old(self).step, old(self).auto_paste, ok),
            old(self).step == DeliveryStep::Finished ==> final(self).outcome == old(self).outcome,
            old(self).step != DeliveryStep::Finished ==> final(self).outcome == settled_outcome(
                old(self).step,
                old(self).auto_paste,
                ok,
            ),
            final(self).outcome == Some(Ok::<DeliveryMode, DeliveryError>(DeliveryMode::Pasted))
                && old(self).step != DeliveryStep::Finished ==> final(history)@ == marked(
                old(history)@,
                old(self).text@,
            ),
            !(final(self).outcome == Some(Ok::<DeliveryMode, DeliveryError>(DeliveryMode::Pasted))
                && old(self).step != DeliveryStep::Finished) ==> final(history)@ == old(history)@,
    {
        match self.step {
            DeliveryStep::OpenClipboard => {
                if ok {
                    self.step = DeliveryStep::WriteClipboard;
                } else {
                    self.step = DeliveryStep::Finished;
                    self.outcome = Some(Err(DeliveryError::ClipboardUnavailable));
                }
            },
            DeliveryStep::WriteClipboard => {
                if !ok {
                    self.step = DeliveryStep::Finished;
                    self.outcome = Some(Err(DeliveryError::ClipboardWriteFailed));
                } else if self.auto_paste {
                    self.step = DeliveryStep::ProbeForeground;
                } else {
                    self.step = DeliveryStep::Finished;
                    self.outcome = Some(Ok(DeliveryMode::ClipboardOnly));
                }
            },
            DeliveryStep::ProbeForeground => {
                if ok {
                    self.step = DeliveryStep::PasteAfterDelay;
                } else {
                    self.step = DeliveryStep::ProbeEditableFocus;
                }
            },
            DeliveryStep::PasteAfterDelay => {
                if ok {
                    mark_as_pasted(history, self.text.as_str());
                    self.step = DeliveryStep::Finished;
                    self.outcome = Some(Ok(DeliveryMode::Pasted));
                } else {
                    self.step = DeliveryStep::ProbeEditableFocus;
                }
            },
            DeliveryStep::ProbeEditableFocus => {
                if ok {
                    self.step = DeliveryStep::PasteIntoFocus;
                } else {
                    self.step = DeliveryStep::Finished;
                    self.outcome = Some(Ok(DeliveryMode::ClipboardOnly));
                }
            },
            DeliveryStep::PasteIntoFocus => {
                self.step = DeliveryStep::Finished;
                if ok {
                    mark_as_pasted(history, self.text.as_str());
                    self.outcome = Some(Ok(DeliveryMode::Pasted));
                } else {
                    self.outcome = Some(Ok(DeliveryMode::ClipboardOnly));
                }
            },
            DeliveryStep::Finished => {},
        }
    }
}

/// Every answer brings a delivery closer to its end: it finishes after at most
/// six answers, whatever they are.
pub proof fn law_delivery_terminates(step: DeliveryStep, auto_paste: bool, ok: bool)
    requires
        step != DeliveryStep::Finished,
    ensures
        steps_left(next_step(step, auto_paste, ok)) < steps_left(step),
        steps_left(step) <= 6,
{
}

/// The outcome of a delivery at `step` with outcome `outcome` after `answers`.
pub open spec fn run_delivery(
    step: DeliveryStep,
    outcome: Option<Result<DeliveryMode, DeliveryError>>,
    auto_paste: bool,
    answers: Seq<bool>,
) -> Option<Result<DeliveryMode, DeliveryError>>
    decreases answers.len(),
{
    if answers.len() == 0 || step == DeliveryStep::Finished {
        outcome
    } else {
        run_delivery(
            next_step(step, auto_paste, answers[0]),
            settled_outcome(step, auto_paste, answers[0]),
            auto_paste,
            answers.drop_first(),
        )
    }
}

/// A delivery succeeds only when the text reached the clipboard first: whether it
/// is pasted or not, the result is never lost.
pub proof fn law_success_implies_clipboard(auto_paste: bool, answers: Seq<bool>)
    ensures
        run_delivery(DeliveryStep::OpenClipboard, None, auto_paste, answers) matches Some(Ok(_))
            ==> answers.len() >= 2 && answers[0] && answers[1],
{
    if answers.len() >= 1 {
        let a1 = answers.drop_first();
        if answers[0] {
            if a1.len() >= 1 {
                let a2 = a1.drop_first();
                assert(a1[0] == answers[1]);
                if !a1[0] {
                    assert(run_delivery(DeliveryStep::Finished, Some(Err(DeliveryError::ClipboardWriteFailed)), auto_paste, a2) == Some(Err::<DeliveryMode, DeliveryError>(DeliveryError::ClipboardWriteFailed)));
                }
            } else {
                assert(run_delivery(DeliveryStep::WriteClipboard, None, auto_paste, a1) is None);
            }
        } else {
            assert(run_delivery(DeliveryStep::Finished, Some(Err(DeliveryError::ClipboardUnavailable)), auto_paste, a1) == Some(Err::<DeliveryMode, DeliveryError>(DeliveryError::ClipboardUnavailable)));
        }
    }
}

/// Without auto-paste, a text that reached the clipboard is delivered
/// clipboard-only, after exactly two answers.
pub proof fn law_no_auto_paste_is_clipboard_only()
    ensures
        next_step(next_step(DeliveryStep::OpenClipboard, false, true), false, true)
            == DeliveryStep::Finished,
        settled_outcome(next_step(DeliveryStep::OpenClipboard, false, true), false, true) == Some(
            Ok::<DeliveryMode, DeliveryError>(DeliveryMode::ClipboardOnly),
        ),
{
}


// ---------------------------------------------------------------------------
// What the focus probes decide
// ---------------------------------------------------------------------------

/// Whether a control kind, as its debug text names it, is an editable control
/// (an edit box or a document).
pub fn is_editable_kind(kind: &str) -> (r: bool)
    ensures
        r == (crate::text::contains_spec(kind@, "Edit"@) || crate::text::contains_spec(
            kind@,
            "Document"@,
        )),
{
    crate::text::contains(kind, "Edit") || crate::text::contains(kind, "Document")
}

/// Whether a control kind holds text that a submission may read: an editable
/// control, or a text control.
pub fn is_text_holding_kind(kind: &str) -> (r: bool)
    ensures
        r == (crate::text::contains_spec(kind@, "Edit"@) || crate::text::contains_spec(
            kind@,
            "Document"@,
        ) || crate::text::contains_spec(kind@, "Text"@)),
{
    is_editable_kind(kind) || crate::text::contains(kind, "Text")
}

/// Whether the foreground window may receive a paste: there is one, it belongs
/// to a known process, and that process is not this one.
pub fn foreground_accepts_paste(has_foreground: bool, process_id: u32, own_process_id: u32) -> (r:
    bool)
    ensures
        r == (has_foreground && process_id != 0 && process_id != own_process_id),
{
    has_foreground && process_id != 0 && process_id != own_process_id
}

// ---------------------------------------------------------------------------
// Laws on list items and on dissatisfaction
// ---------------------------------------------------------------------------

proof fn lemma_letter_run(run: Seq<char>, rest: Seq<char>)
    requires
        forall|i: int| 0 <= i < run.len() ==> ('A' <= #[trigger] run[i] <= 'Z') || ('a' <= run[i] <= 'z'),
        rest.len() > 0,
        !in_class(NumeralClass::Latin, rest[0]),
    ensures
        class_run(run + rest, NumeralClass::Latin) == run.len(),
    decreases run.len(),
{
    if run.len() == 0 {
        assert(run + rest =~= rest);
    } else {
        let tail = run.drop_first();
        assert forall|i: int| 0 <= i < tail.len() implies ('A' <= #[trigger] tail[i] <= 'Z') || (
        'a' <= tail[i] <= 'z') by {
            assert(tail[i] == run[i + 1]);
        }
        lemma_letter_run(tail, rest);
        assert((run + rest).drop_first() =~= tail + rest);
        assert((run + rest)[0] == run[0]);
    }
}

/// A line whose trimmed text starts with ASCII letters of either case closed by
/// `.`, `．` or `、` is a numbered list item with no number, whose marker is the
/// letters followed by `. `; such a line can always be read.
pub proof fn law_letter_items_are_numbered(line: Seq<char>, letters: Seq<char>, sep: char, rest: Seq<char>)
    requires
        letters.len() > 0,
        forall|i: int|
            0 <= i < letters.len() ==> ('A' <= #[trigger] letters[i] <= 'Z') || ('a' <= letters[i]
                <= 'z'),
        sep == '.' || sep == '．' || sep == '、',
        trim_spec(line) == letters + seq![sep] + rest,
    ensures
        list_pattern_spec(line) == Some((letters + seq!['.', ' '], true, None::<u32>)),
        list_number_readable(line),
{
    let t = letters + seq![sep] + rest;
    let after = seq![sep] + rest;
    assert(t =~= letters + after);
    assert(t[0] == letters[0]);
    assert(!in_class(NumeralClass::Digit, t[0]));
    assert(!in_class(NumeralClass::Han, t[0]));
    assert(class_run(t, NumeralClass::Digit) == 0);
    assert(class_run(t, NumeralClass::Han) == 0);
    assert(numeral_group(t, NumeralClass::Digit) is None);
    assert(numeral_group(t, NumeralClass::Han) is None);
    assert(after[0] == sep);
    lemma_letter_run(letters, after);
    let k = letters.len() as int;
    assert(t[k] == sep);
    assert(sep_at_or_before(t, k) == Some(k));
    assert(t.take(k) =~= letters);
    assert(numbered_group(t) == Some(letters));
    assert(!all_ascii_digits(letters)) by {
        assert(!('0' <= letters[0] <= '9'));
    }
    assert(han_digit(letters[0]) is None);
    lemma_han_value_fits_none(letters);
    assert(letters.take(1).drop_last() =~= Seq::<char>::empty());
    assert(han_value(letters.take(1)) is None);
    lemma_han_value_none_extends(letters, 1, letters.len() as int);
    assert(letters.take(letters.len() as int) =~= letters);
    assert(han_number(letters) is None);
}

/// Dissatisfaction in terms of the three most recent entries: it is never
/// reported while the newest entry is a paste less than five seconds old, and
/// otherwise exactly when one of the three newest entries was pasted less than
/// fifteen seconds ago.
pub proof fn law_dissatisfaction_looks_at_three_newest(h: Seq<EntryView>, now: u64)
    ensures
        dissatisfied(h, now) == (h.len() > 0 && !(h[0].was_pasted && (now < h[0].timestamp
            || now - h[0].timestamp < 5000)) && ((h[0].was_pasted && (now < h[0].timestamp
            || now - h[0].timestamp < 15000)) || (h.len() > 1 && h[1].was_pasted && (now
            < h[1].timestamp || now - h[1].timestamp < 15000)) || (h.len() > 2 && h[2].was_pasted
            && (now < h[2].timestamp || now - h[2].timestamp < 15000)))),
{
    if h.len() > 0 {
        assert forall|i: int| 0 <= i < h.len() && i < 3 implies (elapsed_secs(h[i].timestamp, now)
            < 15 <==> (now < h[i].timestamp || now - h[i].timestamp < 15000)) && (elapsed_secs(
            h[i].timestamp,
            now,
        ) < 5 <==> (now < h[i].timestamp || now - h[i].timestamp < 5000)) by {}
    }
}

} // verus!
