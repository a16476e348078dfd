//! Character-sequence helpers with exact contracts.
//!
//! Strings are seen as sequences of characters. The executable helpers work on
//! `&str`, `String` and slices of `char`, and each one is tied to a
//! specification function over `Seq<char>`.

use vstd::prelude::*;
use vstd::string::StringExecFns;

verus! {

/// `String::push` appends one character at the end.
pub assume_specification[ String::push ](s: &mut String, c: char)
    ensures
        final(s)@ == old(s)@.push(c),
;

// ---------------------------------------------------------------------------
// Character classes
// ---------------------------------------------------------------------------
/// Unicode `White_Space`.
pub open spec fn is_white(c: char) -> bool {
    ||| '\u{9}' <= c <= '\u{d}'
    ||| c == '\u{20}'
    ||| c == '\u{85}'
    ||| c == '\u{a0}'
    ||| c == '\u{1680}'
    ||| '\u{2000}' <= c <= '\u{200a}'
    ||| c == '\u{2028}'
    ||| c == '\u{2029}'
    ||| c == '\u{202f}'
    ||| c == '\u{205f}'
    ||| c == '\u{3000}'
}

/// Unicode category `Cc`.
pub open spec fn is_control(c: char) -> bool {
    c <= '\u{1f}' || '\u{7f}' <= c <= '\u{9f}'
}

pub open spec fn is_digit(c: char) -> bool {
    '0' <= c <= '9'
}

pub open spec fn is_upper(c: char) -> bool {
    'A' <= c <= 'Z'
}

pub open spec fn is_lower(c: char) -> bool {
    'a' <= c <= 'z'
}

/// ASCII letters, digits and the underscore.
pub open spec fn is_word(c: char) -> bool {
    is_digit(c) || is_upper(c) || is_lower(c) || c == '_'
}

/// The character with ASCII upper-case letters turned to lower case.
pub open spec fn lower_char(c: char) -> char {
    if is_upper(c) {
        (c as u32 + 32) as char
    } else {
        c
    }
}

/// The character with ASCII lower-case letters turned to upper case.
pub open spec fn upper_char(c: char) -> char {
    if is_lower(c) {
        (c as u32 - 32) as char
    } else {
        c
    }
}

pub open spec fn lower(s: Seq<char>) -> Seq<char> {
    s.map_values(|c: char| lower_char(c))
}

pub open spec fn upper(s: Seq<char>) -> Seq<char> {
    s.map_values(|c: char| upper_char(c))
}

pub fn char_is_white(c: char) -> (r: bool)
    ensures
        r == is_white(c),
{
    ('\u{9}' <= c && c <= '\u{d}') || c == '\u{20}' || c == '\u{85}' || c == '\u{a0}' || c
        == '\u{1680}' || ('\u{2000}' <= c && c <= '\u{200a}') || c == '\u{2028}' || c == '\u{2029}'
        || c == '\u{202f}' || c == '\u{205f}' || c == '\u{3000}'
}

pub fn char_is_control(c: char) -> (r: bool)
    ensures
        r == is_control(c),
{
    c <= '\u{1f}' || ('\u{7f}' <= c && c <= '\u{9f}')
}

pub fn char_is_digit(c: char) -> (r: bool)
    ensures
        r == is_digit(c),
{
    '0' <= c && c <= '9'
}

pub fn char_to_lower(c: char) -> (r: char)
    ensures
        r == lower_char(c),
{
    if 'A' <= c && c <= 'Z' {
        (c as u8 + 32) as char
    } else {
        c
    }
}

pub fn char_to_upper(c: char) -> (r: char)
    ensures
        r == upper_char(c),
{
    if 'a' <= c && c <= 'z' {
        (c as u8 - 32) as char
    } else {
        c
    }
}

// ---------------------------------------------------------------------------
// Conversions
// ---------------------------------------------------------------------------
/// The characters of a string, in order.
pub fn chars_of(s: &str) -> (v: Vec<char>)
    ensures
        v@ == s@,
{
    let mut v: Vec<char> = Vec::new();
    for c in it: s.chars()
        invariant
            it.seq() == s@,
            v@ == s@.take(it.index()),
    {
        v.push(c);
    }
    v
}

/// The string made of the given characters.
pub fn string_of(v: &[char]) -> (s: String)
    ensures
        s@ == v@,
{
    let mut s = String::new();
    let mut i: usize = 0;
    while i < v.len()
        invariant
            i <= v.len(),
            s@ == v@.take(i as int),
        decreases v.len() - i,
    {
        s.push(v[i]);
        i = i + 1;
    }
    s
}

/// Whether two strings hold the same characters.
pub fn same(a: &str, b: &str) -> (r: bool)
    ensures
        r == (a@ == b@),
{
    a.to_owned() == b.to_owned()
}

// ---------------------------------------------------------------------------
// Trimming
// ---------------------------------------------------------------------------
/// `s` without its leading white space.
pub open spec fn trim_start(s: Seq<char>) -> Seq<char>
    decreases s.len(),
{
    if s.len() > 0 && is_white(s[0]) {
        trim_start(s.skip(1))
    } else {
        s
    }
}

/// `s` without its trailing white space.
pub open spec fn trim_end(s: Seq<char>) -> Seq<char>
    decreases s.len(),
{
    if s.len() > 0 && is_white(s.last()) {
        trim_end(s.drop_last())
    } else {
        s
    }
}

/// `s` without leading and trailing white space.
pub open spec fn trim(s: Seq<char>) -> Seq<char> {
    trim_end(trim_start(s))
}

/// `s` without its leading run of `c`.
pub open spec fn trim_start_char(s: Seq<char>, c: char) -> Seq<char>
    decreases s.len(),
{
    if s.len() > 0 && s[0] == c {
        trim_start_char(s.skip(1), c)
    } else {
        s
    }
}

/// `s` up to, not with, its first character out of `stops`.
pub open spec fn before_any(s: Seq<char>, stops: Seq<char>) -> Seq<char>
    decreases s.len(),
{
    if s.len() == 0 || stops.contains(s[0]) {
        Seq::empty()
    } else {
        seq![s[0]] + before_any(s.skip(1), stops)
    }
}

/// A copy of `v[from..to]`.
pub fn slice_chars(v: &[char], from: usize, to: usize) -> (r: Vec<char>)
    requires
        from <= to <= v@.len(),
    ensures
        r@ == v@.subrange(from as int, to as int),
{
    let mut r: Vec<char> = Vec::new();
    let mut i: usize = from;
    while i < to
        invariant
            from <= i <= to <= v@.len(),
            r@ == v@.subrange(from as int, i as int),
        decreases to - i,
    {
        r.push(v[i]);
        i = i + 1;
    }
    r
}

pub fn trim_chars(v: &[char]) -> (r: Vec<char>)
    ensures
        r@ == trim(v@),
{
    let mut from: usize = 0;
    assert(v@.skip(0) =~= v@);
    while from < v.len() && char_is_white(v[from])
        invariant
            from <= v@.len(),
            trim_start(v@) == trim_start(v@.skip(from as int)),
        decreases v@.len() - from,
    {
        assert(v@.skip(from as int).skip(1) =~= v@.skip(from + 1));
        from = from + 1;
    }
    let ghost head = v@.skip(from as int);
    assert(trim_start(v@) == head);
    let mut to: usize = v.len();
    assert(v@.subrange(from as int, to as int) =~= head);
    while from < to && char_is_white(v[to - 1])
        invariant
            from <= to <= v@.len(),
            trim_end(head) == trim_end(v@.subrange(from as int, to as int)),
        decreases to,
    {
        assert(v@.subrange(from as int, to as int).drop_last() =~= v@.subrange(
            from as int,
            to - 1,
        ));
        to = to - 1;
    }
    slice_chars(v, from, to)
}

pub fn trim_start_char_of(v: &[char], c: char) -> (r: Vec<char>)
    ensures
        r@ == trim_start_char(v@, c),
{
    let mut from: usize = 0;
    assert(v@.skip(0) =~= v@);
    while from < v.len() && v[from] == c
        invariant
            from <= v@.len(),
            trim_start_char(v@, c) == trim_start_char(v@.skip(from as int), c),
        decreases v@.len() - from,
    {
        assert(v@.skip(from as int).skip(1) =~= v@.skip(from + 1));
        from = from + 1;
    }
    assert(v@.skip(from as int) =~= v@.subrange(from as int, v@.len() as int));
    slice_chars(v, from, v.len())
}

/// Whether `c` is one of `stops`.
pub fn has_char(stops: &[char], c: char) -> (r: bool)
    ensures
        r == stops@.contains(c),
{
    let mut i: usize = 0;
    while i < stops.len()
        invariant
            i <= stops@.len(),
            forall|j: int| 0 <= j < i ==> stops@[j] != c,
        decreases stops@.len() - i,
    {
        if stops[i] == c {
            return true;
        }
        i = i + 1;
    }
    false
}

pub fn before_any_of(v: &[char], stops: &[char]) -> (r: Vec<char>)
    ensures
        r@ == before_any(v@, stops@),
{
    let mut r: Vec<char> = Vec::new();
    let mut i: usize = 0;
    assert(v@.skip(0) =~= v@);
    while i < v.len() && !has_char(stops, v[i])
        invariant
            i <= v@.len(),
            before_any(v@, stops@) == r@ + before_any(v@.skip(i as int), stops@),
        decreases v@.len() - i,
    {
        assert(v@.skip(i as int).skip(1) =~= v@.skip(i + 1));
        proof {
            let rest = before_any(v@.skip(i + 1), stops@);
            assert(r@ + (seq![v@[i as int]] + rest) =~= r@.push(v@[i as int]) + rest);
        }
        r.push(v[i]);
        i = i + 1;
    }
    assert(before_any(v@.skip(i as int), stops@) =~= Seq::<char>::empty());
    r
}

pub fn lower_chars(v: &[char]) -> (r: Vec<char>)
    ensures
        r@ == lower(v@),
{
    let mut r: Vec<char> = Vec::new();
    let mut i: usize = 0;
    while i < v.len()
        invariant
            i <= v@.len(),
            r@ == lower(v@.take(i as int)),
        decreases v@.len() - i,
    {
        r.push(char_to_lower(v[i]));
        i = i + 1;
        assert(r@ =~= lower(v@.take(i as int)));
    }
    assert(v@.take(i as int) =~= v@);
    r
}

pub fn upper_chars(v: &[char]) -> (r: Vec<char>)
    ensures
        r@ == upper(v@),
{
    let mut r: Vec<char> = Vec::new();
    let mut i: usize = 0;
    while i < v.len()
        invariant
            i <= v@.len(),
            r@ == upper(v@.take(i as int)),
        decreases v@.len() - i,
    {
        r.push(char_to_upper(v[i]));
        i = i + 1;
        assert(r@ =~= upper(v@.take(i as int)));
    }
    assert(v@.take(i as int) =~= v@);
    r
}

/// `str::trim`.
pub fn trim_str(s: &str) -> (r: String)
    ensures
        r@ == trim(s@),
{
    let v = chars_of(s);
    string_of(&trim_chars(&v))
}

/// `str::to_ascii_lowercase`.
pub fn lower_str(s: &str) -> (r: String)
    ensures
        r@ == lower(s@),
{
    let v = chars_of(s);
    string_of(&lower_chars(&v))
}

/// `str::to_ascii_uppercase`.
pub fn upper_str(s: &str) -> (r: String)
    ensures
        r@ == upper(s@),
{
    let v = chars_of(s);
    string_of(&upper_chars(&v))
}

// ---------------------------------------------------------------------------
// Prefixes, suffixes, substrings
// ---------------------------------------------------------------------------
pub open spec fn starts_with(s: Seq<char>, t: Seq<char>) -> bool {
    t.len() <= s.len() && s.take(t.len() as int) == t
}

pub open spec fn ends_with(s: Seq<char>, t: Seq<char>) -> bool {
    t.len() <= s.len() && s.skip(s.len() - t.len()) == t
}

/// `t` stands in `s` at position `i`.
pub open spec fn occurs_at(s: Seq<char>, t: Seq<char>, i: int) -> bool {
    0 <= i && i + t.len() <= s.len() && s.subrange(i, i + t.len()) == t
}

pub open spec fn contains(s: Seq<char>, t: Seq<char>) -> bool {
    exists|i: int| occurs_at(s, t, i)
}

/// Whether `t` stands in `v` at `from`.
pub fn chars_occur_at(v: &[char], t: &[char], from: usize) -> (r: bool)
    requires
        from <= v@.len(),
    ensures
        r == occurs_at(v@, t@, from as int),
{
    let total: usize = v.len();
    if t.len() > total - from {
        return false;
    }
    let mut i: usize = 0;
    while i < t.len()
        invariant
            i <= t@.len(),
            total == v@.len(),
            from + t@.len() <= total,
            forall|j: int| 0 <= j < i ==> v@[from + j] == t@[j],
        decreases t@.len() - i,
    {
        if v[from + i] != t[i] {
            assert(v@.subrange(from as int, from + t@.len())[i as int] != t@[i as int]);
            return false;
        }
        i = i + 1;
    }
    assert(v@.subrange(from as int, from + t@.len()) =~= t@);
    true
}

pub fn chars_contain(v: &[char], t: &[char]) -> (r: bool)
    ensures
        r == contains(v@, t@),
{
    let mut i: usize = 0;
    while i <= v.len()
        invariant
            i <= v@.len() + 1,
            forall|j: int| 0 <= j < i ==> !occurs_at(v@, t@, j),
        decreases v@.len() + 1 - i,
    {
        if chars_occur_at(v, t, i) {
            return true;
        }
        if i == v.len() {
            assert forall|j: int| !occurs_at(v@, t@, j) by {
                if j > v@.len() {
                    assert(j + t@.len() > v@.len());
                }
            }
            return false;
        }
        i = i + 1;
    }
    false
}

/// `str::contains` with a string pattern.
pub fn str_contains(s: &str, t: &str) -> (r: bool)
    ensures
        r == contains(s@, t@),
{
    let v = chars_of(s);
    let w = chars_of(t);
    chars_contain(&v, &w)
}

/// `str::starts_with` with a string pattern.
pub fn str_starts_with(s: &str, t: &str) -> (r: bool)
    ensures
        r == starts_with(s@, t@),
{
    let v = chars_of(s);
    let w = chars_of(t);
    let r = chars_occur_at(&v, &w, 0);
    assert(s@.len() >= t@.len() ==> s@.subrange(0, t@.len() as int) =~= s@.take(t@.len() as int));
    r
}

/// `str::ends_with` with a string pattern.
pub fn str_ends_with(s: &str, t: &str) -> (r: bool)
    ensures
        r == ends_with(s@, t@),
{
    let v = chars_of(s);
    let w = chars_of(t);
    if w.len() > v.len() {
        return false;
    }
    let from: usize = v.len() - w.len();
    assert(s@.subrange(from as int, from + t@.len()) =~= s@.skip(s@.len() - t@.len()));
    chars_occur_at(&v, &w, from)
}

/// `str::strip_prefix`: the rest behind `t`, where `s` starts with it.
pub fn strip_prefix(s: &str, t: &str) -> (r: Option<String>)
    ensures
        r is Some <==> starts_with(s@, t@),
        r matches Some(rest) ==> rest@ == s@.skip(t@.len() as int),
{
    let v = chars_of(s);
    let w = chars_of(t);
    if str_starts_with(s, t) {
        let rest = slice_chars(&v, w.len(), v.len());
        assert(s@.subrange(t@.len() as int, s@.len() as int) =~= s@.skip(t@.len() as int));
        Some(string_of(&rest))
    } else {
        None
    }
}

/// `str::strip_suffix`: what stands before `t`, where `s` ends with it.
pub fn strip_suffix(s: &str, t: &str) -> (r: Option<String>)
    ensures
        r is Some <==> ends_with(s@, t@),
        r matches Some(rest) ==> rest@ == s@.take(s@.len() - t@.len()),
{
    let v = chars_of(s);
    let w = chars_of(t);
    if str_ends_with(s, t) {
        let rest = slice_chars(&v, 0, v.len() - w.len());
        assert(s@.subrange(0, s@.len() - t@.len()) =~= s@.take(s@.len() - t@.len()));
        Some(string_of(&rest))
    } else {
        None
    }
}

// ---------------------------------------------------------------------------
// Splitting
// ---------------------------------------------------------------------------
/// The position of the first `c` at or behind `from`, or the length.
pub open spec fn next_char(s: Seq<char>, c: char, from: int) -> int
    decreases s.len() - from,
{
    if 0 <= from < s.len() && s[from] != c {
        next_char(s, c, from + 1)
    } else {
        from
    }
}

/// The pieces of `s[from..]` between the separators `c`.
pub open spec fn split_from(s: Seq<char>, c: char, from: int) -> Seq<Seq<char>>
    decreases s.len() - from,
{
    if 0 <= from <= s.len() {
        let at = next_char(s, c, from);
        if from <= at < s.len() {
            seq![s.subrange(from, at)] + split_from(s, c, at + 1)
        } else {
            seq![s.skip(from)]
        }
    } else {
        Seq::empty()
    }
}

/// The pieces of `s` between the separators `c`.
pub open spec fn split(s: Seq<char>, c: char) -> Seq<Seq<char>> {
    split_from(s, c, 0)
}

/// The views of a list of strings.
pub open spec fn views(v: Seq<String>) -> Seq<Seq<char>> {
    v.map_values(|s: String| s@)
}

pub proof fn lemma_next_char(s: Seq<char>, c: char, from: int)
    requires
        0 <= from <= s.len(),
    ensures
        from <= next_char(s, c, from) <= s.len(),
        forall|j: int| from <= j < next_char(s, c, from) ==> s[j] != c,
        next_char(s, c, from) < s.len() ==> s[next_char(s, c, from)] == c,
    decreases s.len() - from,
{
    if from < s.len() && s[from] != c {
        lemma_next_char(s, c, from + 1);
    }
}

/// The position of the first `c` at or behind `from`, or the length.
pub fn find_char(v: &[char], c: char, from: usize) -> (at: usize)
    requires
        from <= v@.len(),
    ensures
        at == next_char(v@, c, from as int),
        from <= at <= v@.len(),
{
    let mut i: usize = from;
    while i < v.len() && v[i] != c
        invariant
            from <= i <= v@.len(),
            next_char(v@, c, from as int) == next_char(v@, c, i as int),
        decreases v@.len() - i,
    {
        i = i + 1;
    }
    i
}

/// `str::split` with a character pattern.
pub fn split_str(s: &str, c: char) -> (r: Vec<String>)
    ensures
        views(r@) == split(s@, c),
{
    let v = chars_of(s);
    let mut r: Vec<String> = Vec::new();
    let mut from: usize = 0;
    loop
        invariant
            v@ == s@,
            from <= v@.len(),
            split(s@, c) == views(r@) + split_from(s@, c, from as int),
        decreases v@.len() - from,
    {
        let at = find_char(&v, c, from);
        let piece = string_of(&slice_chars(&v, from, at));
        let ghost before = r@;
        r.push(piece);
        assert(views(r@) =~= views(before).push(s@.subrange(from as int, at as int)));
        if at < v.len() {
            proof {
                let rest = split_from(s@, c, at + 1);
                assert(views(before) + (seq![s@.subrange(from as int, at as int)] + rest) =~= views(
                    r@,
                ) + rest);
            }
            from = at + 1;
        } else {
            assert(s@.subrange(from as int, at as int) =~= s@.skip(from as int));
            assert(views(before) + seq![s@.skip(from as int)] =~= views(r@));
            return r;
        }
    }
}

/// `str::split_once` with a character pattern: the first `c` parts the string.
pub fn split_once(s: &str, c: char) -> (r: Option<(String, String)>)
    ensures
        r is Some <==> s@.contains(c),
        r matches Some((a, b)) ==> s@ == a@ + seq![c] + b@ && !a@.contains(c),
{
    let v = chars_of(s);
    let at = find_char(&v, c, 0);
    proof {
        lemma_next_char(s@, c, 0);
    }
    if at < v.len() {
        let a = string_of(&slice_chars(&v, 0, at));
        let b = string_of(&slice_chars(&v, at + 1, v.len()));
        assert(s@ =~= a@ + seq![c] + b@);
        assert(s@[at as int] == c);
        Some((a, b))
    } else {
        None
    }
}

/// A line's text: what stands before its line feed, and before a carriage
/// return directly in front of that.
pub open spec fn without_cr(s: Seq<char>) -> Seq<char> {
    if s.len() > 0 && s.last() == '\r' {
        s.drop_last()
    } else {
        s
    }
}

/// The lines of `s[from..]`: each ends in a line feed, the last one perhaps
/// at the end of the text.
pub open spec fn lines_from(s: Seq<char>, from: int) -> Seq<Seq<char>>
    decreases s.len() - from,
{
    if 0 <= from < s.len() {
        let at = next_char(s, '\n', from);
        if from <= at < s.len() {
            seq![without_cr(s.subrange(from, at))] + lines_from(s, at + 1)
        } else {
            seq![s.skip(from)]
        }
    } else {
        Seq::empty()
    }
}

/// The lines of a text.
pub open spec fn lines(s: Seq<char>) -> Seq<Seq<char>> {
    lines_from(s, 0)
}

/// `str::lines`.
pub fn lines_of(s: &str) -> (r: Vec<String>)
    ensures
        views(r@) == lines(s@),
{
    let v = chars_of(s);
    let mut r: Vec<String> = Vec::new();
    let mut from: usize = 0;
    while from < v.len()
        invariant
            v@ == s@,
            from <= v@.len(),
            lines(s@) == views(r@) + lines_from(s@, from as int),
        decreases v@.len() - from,
    {
        let at = find_char(&v, '\n', from);
        let ghost before = r@;
        if at < v.len() {
            let mut end: usize = at;
            if end > from && v[end - 1] == '\r' {
                end = end - 1;
            }
            let piece = string_of(&slice_chars(&v, from, end));
            assert(piece@ =~= without_cr(s@.subrange(from as int, at as int)));
            r.push(piece);
            proof {
                let rest = lines_from(s@, at + 1);
                assert(views(before) + (seq![piece@] + rest) =~= views(r@) + rest);
            }
            from = at + 1;
        } else {
            let piece = string_of(&slice_chars(&v, from, v.len()));
            assert(piece@ =~= s@.skip(from as int));
            r.push(piece);
            proof {
                assert(lines_from(s@, v@.len() as int) =~= Seq::<Seq<char>>::empty());
                assert(views(before) + seq![piece@] =~= views(r@) + lines_from(
                    s@,
                    v@.len() as int,
                ));
            }
            from = v.len();
        }
    }
    r
}

// ---------------------------------------------------------------------------
// Decimal numbers
// ---------------------------------------------------------------------------
pub open spec fn digit_char(d: nat) -> char {
    (48 + d) as char
}

/// The decimal digits of `n`, without leading zeros.
pub open spec fn decimal(n: nat) -> Seq<char>
    decreases n,
{
    if n < 10 {
        seq![digit_char(n)]
    } else {
        decimal(n / 10).push(digit_char(n % 10))
    }
}

/// What a run of decimal digits is worth; nothing where another character
/// stands in it.
pub open spec fn digits_value(s: Seq<char>) -> Option<nat>
    decreases s.len(),
{
    if s.len() == 0 {
        Some(0)
    } else {
        match digits_value(s.drop_last()) {
            Some(v) if is_digit(s.last()) => Some((v * 10 + (s.last() as nat - 48)) as nat),
            _ => None,
        }
    }
}

/// An unsigned number as the standard integer parsers take it: an optional
/// plus sign, then at least one digit, worth at most `max`.
pub open spec fn parse_unsigned(s: Seq<char>, max: nat) -> Option<nat> {
    let body = if s.len() > 0 && s[0] == '+' {
        s.skip(1)
    } else {
        s
    };
    if body.len() == 0 {
        None
    } else {
        match digits_value(body) {
            Some(v) if v <= max => Some(v),
            _ => None,
        }
    }
}

/// The decimal form of an unsigned number.
pub fn decimal_of(n: u64) -> (s: String)
    ensures
        s@ == decimal(n as nat),
    decreases n,
{
    if n < 10 {
        let mut s = String::new();
        s.push((48 + n as u8) as char);
        assert(s@ =~= decimal(n as nat));
        s
    } else {
        let mut s = decimal_of(n / 10);
        let d: u64 = n % 10;
        s.push((48 + d as u8) as char);
        s
    }
}

proof fn lemma_digits_prefix(s: Seq<char>, k: int)
    requires
        0 <= k <= s.len(),
        digits_value(s) is Some,
    ensures
        digits_value(s.take(k)) is Some,
        digits_value(s.take(k))->0 <= digits_value(s)->0,
    decreases s.len() - k,
{
    if k == s.len() {
        assert(s.take(k) =~= s);
    } else {
        lemma_digits_prefix(s, k + 1);
        assert(s.take(k + 1).drop_last() =~= s.take(k));
    }
}

/// Parse an unsigned number no larger than `max`.
pub fn parse_unsigned_chars(v: &[char], max: u64) -> (r: Option<u64>)
    ensures
        r is Some <==> parse_unsigned(v@, max as nat) is Some,
        r matches Some(n) ==> parse_unsigned(v@, max as nat) == Some(n as nat),
{
    let start: usize = if v.len() > 0 && v[0] == '+' {
        1
    } else {
        0
    };
    let ghost body = v@.skip(start as int);
    assert(start == 0 ==> body =~= v@);
    if start == v.len() {
        return None;
    }
    let mut i: usize = start;
    let mut acc: u64 = 0;
    while i < v.len()
        invariant
            start <= i <= v@.len(),
            start < v@.len(),
            body == v@.skip(start as int),
            start == 1 <==> v@.len() > 0 && v@[0] == '+',
            start == 0 || start == 1,
            start == 0 ==> body == v@,
            acc <= max,
            digits_value(body.take(i - start)) == Some(acc as nat),
        decreases v@.len() - i,
    {
        let c = v[i];
        let ghost k = i - start;
        assert(body.take(k + 1).drop_last() =~= body.take(k));
        assert(body.take(k + 1).last() == c);
        if !char_is_digit(c) {
            proof {
                if digits_value(body) is Some {
                    lemma_digits_prefix(body, k + 1);
                }
            }
            return None;
        }
        let d: u64 = (c as u8 - 48) as u64;
        if d > max || acc > max / 10 || acc * 10 > max - d {
            proof {
                if digits_value(body) is Some {
                    lemma_digits_prefix(body, k + 1);
                    assert(acc * 10 + d > max);
                }
            }
            return None;
        }
        acc = acc * 10 + d;
        i = i + 1;
    }
    assert(body.take(i - start) =~= body);
    Some(acc)
}

/// `str::parse::<u64>`.
pub fn parse_u64(s: &str) -> (r: Option<u64>)
    ensures
        r is Some <==> parse_unsigned(s@, u64::MAX as nat) is Some,
        r matches Some(n) ==> parse_unsigned(s@, u64::MAX as nat) == Some(n as nat),
{
    let v = chars_of(s);
    parse_unsigned_chars(&v, u64::MAX)
}

/// The digits of a number are worth that number.
pub proof fn lemma_decimal_value(n: nat)
    ensures
        digits_value(decimal(n)) == Some(n),
        decimal(n).len() > 0,
        forall|i: int| 0 <= i < decimal(n).len() ==> is_digit(#[trigger] decimal(n)[i]),
    decreases n,
{
    if n < 10 {
        assert(decimal(n).drop_last() =~= Seq::<char>::empty());
        assert(digits_value(Seq::<char>::empty()) == Some(0nat));
    } else {
        lemma_decimal_value(n / 10);
        assert(decimal(n).drop_last() =~= decimal(n / 10));
    }
}

/// Writing a number in decimal and parsing it again gives the number back.
pub proof fn lemma_decimal_roundtrip(n: nat, max: nat)
    requires
        n <= max,
    ensures
        parse_unsigned(decimal(n), max) == Some(n),
{
    lemma_decimal_value(n);
    assert(is_digit(decimal(n)[0]));
}

/// The decimal form of a signed number.
pub open spec fn signed_decimal(n: int) -> Seq<char> {
    if n < 0 {
        "-"@ + decimal((-n) as nat)
    } else {
        decimal(n as nat)
    }
}

pub fn signed_decimal_of(n: i32) -> (s: String)
    ensures
        s@ == signed_decimal(n as int),
{
    if n < 0 {
        let mut s = "-".to_owned();
        let m = decimal_of((-(n as i64)) as u64);
        s.append(m.as_str());
        s
    } else {
        decimal_of(n as u64)
    }
}

/// Decimal form, filled up with leading zeros to at least `width` digits.
pub open spec fn padded_decimal(n: nat, width: nat) -> Seq<char> {
    let d = decimal(n);
    if d.len() < width {
        Seq::new((width - d.len()) as nat, |i: int| '0') + d
    } else {
        d
    }
}

pub fn padded_decimal_of(n: u64, width: usize) -> (s: String)
    ensures
        s@ == padded_decimal(n as nat, width as nat),
{
    let digits = chars_of(decimal_of(n).as_str());
    let mut v: Vec<char> = Vec::new();
    let fill: usize = if digits.len() < width {
        width - digits.len()
    } else {
        0
    };
    let mut i: usize = 0;
    while i < fill
        invariant
            i <= fill,
            v@ == Seq::new(i as nat, |j: int| '0'),
        decreases fill - i,
    {
        v.push('0');
        i = i + 1;
        assert(v@ =~= Seq::new(i as nat, |j: int| '0'));
    }
    let mut s = string_of(&v);
    let d = decimal_of(n);
    s.append(d.as_str());
    assert(s@ =~= padded_decimal(n as nat, width as nat));
    s
}

pub fn trim_end_chars(v: &[char]) -> (r: Vec<char>)
    ensures
        r@ == trim_end(v@),
{
    let mut to: usize = v.len();
    assert(v@.subrange(0, to as int) =~= v@);
    while 0 < to && char_is_white(v[to - 1])
        invariant
            to <= v@.len(),
            trim_end(v@) == trim_end(v@.subrange(0, to as int)),
        decreases to,
    {
        assert(v@.subrange(0, to as int).drop_last() =~= v@.subrange(0, to - 1));
        to = to - 1;
    }
    slice_chars(v, 0, to)
}

/// `s` without its trailing run of `c`.
pub open spec fn trim_end_char(s: Seq<char>, c: char) -> Seq<char>
    decreases s.len(),
{
    if s.len() > 0 && s.last() == c {
        trim_end_char(s.drop_last(), c)
    } else {
        s
    }
}

/// `str::trim_end_matches` with a character pattern.
pub fn trim_end_char_str(s: &str, c: char) -> (r: String)
    ensures
        r@ == trim_end_char(s@, c),
{
    let v = chars_of(s);
    let mut to: usize = v.len();
    assert(v@.subrange(0, to as int) =~= v@);
    while 0 < to && v[to - 1] == c
        invariant
            to <= v@.len(),
            trim_end_char(v@, c) == trim_end_char(v@.subrange(0, to as int), c),
        decreases to,
    {
        assert(v@.subrange(0, to as int).drop_last() =~= v@.subrange(0, to - 1));
        to = to - 1;
    }
    string_of(&slice_chars(&v, 0, to))
}

/// `std::str::from_utf8`: the text that bytes encode, where they are valid
/// UTF-8.
#[verifier::external_body]
pub(crate) fn utf8_text(bytes: &[u8]) -> (r: Option<String>)
    ensures
        r is Some <==> vstd::utf8::valid_utf8(bytes@),
        r matches Some(s) ==> s@ == vstd::utf8::decode_utf8(bytes@),
{
    match std::str::from_utf8(bytes) {
        Ok(s) => Some(s.to_string()),
        Err(_) => None,
    }
}

/// What lossy decoding makes of bytes.
pub uninterp spec fn lossy_text(bytes: Seq<u8>) -> Seq<char>;

/// `String::from_utf8_lossy`. Valid UTF-8 decodes to its text; what stands for
/// invalid bytes is left to the name.
#[verifier::external_body]
pub(crate) fn utf8_lossy(bytes: &[u8]) -> (s: String)
    ensures
        s@ == lossy_text(bytes@),
        vstd::utf8::valid_utf8(bytes@) ==> s@ == vstd::utf8::decode_utf8(bytes@),
{
    String::from_utf8_lossy(bytes).into_owned()
}

/// The full Unicode lower case of a text.
pub uninterp spec fn unicode_lower(s: Seq<char>) -> Seq<char>;

/// `str::to_lowercase`. An ASCII text becomes its ASCII lower case.
#[verifier::external_body]
pub(crate) fn unicode_lower_str(s: &str) -> (r: String)
    ensures
        r@ == unicode_lower(s@),
        vstd::utf8::is_ascii_chars(s@) ==> r@ == lower(s@),
{
    s.to_lowercase()
}

proof fn lemma_split_from_nonempty(s: Seq<char>, c: char, from: int)
    requires
        0 <= from <= s.len(),
    ensures
        split_from(s, c, from).len() > 0,
{
}

/// A text always has at least one piece.
pub proof fn lemma_split_nonempty(s: Seq<char>, c: char)
    ensures
        split(s, c).len() > 0,
{
    lemma_split_from_nonempty(s, c, 0);
}

/// What stands before the first `c`; all of the text where there is none.
pub fn first_piece(s: &str, c: char) -> (r: String)
    ensures
        r@ == split(s@, c)[0],
{
    let pieces = split_str(s, c);
    proof {
        lemma_split_nonempty(s@, c);
        assert(views(pieces@)[0] == pieces@[0]@);
    }
    pieces[0].clone()
}

/// What stands behind the last `c`; all of the text where there is none.
pub fn last_piece(s: &str, c: char) -> (r: String)
    ensures
        r@ == split(s@, c).last(),
{
    let pieces = split_str(s, c);
    proof {
        lemma_split_nonempty(s@, c);
        assert(views(pieces@).last() == pieces@.last()@);
    }
    pieces[pieces.len() - 1].clone()
}

// ---------------------------------------------------------------------------
// Words
// ---------------------------------------------------------------------------
/// The longest runs of characters that are no white space, in order.
pub open spec fn words(s: Seq<char>) -> Seq<Seq<char>>
    decreases s.len(),
{
    if s.len() == 0 {
        Seq::empty()
    } else {
        let before = words(s.drop_last());
        if is_white(s.last()) {
            before
        } else if in_word(s.drop_last()) {
            before.update(before.len() - 1, before.last().push(s.last()))
        } else {
            before.push(seq![s.last()])
        }
    }
}

/// A text that ends inside a word.
pub open spec fn in_word(s: Seq<char>) -> bool {
    s.len() > 0 && !is_white(s.last())
}

/// `str::split_whitespace`.
pub fn words_of(s: &str) -> (r: Vec<String>)
    ensures
        views(r@) == words(s@),
{
    let v = chars_of(s);
    let mut r: Vec<String> = Vec::new();
    let mut current = String::new();
    let mut inside = false;
    let mut i: usize = 0;
    assert(s@.take(0) =~= Seq::<char>::empty());
    assert(views(r@) =~= words(s@.take(0)));
    while i < v.len()
        invariant
            v@ == s@,
            i <= v@.len(),
            inside == in_word(s@.take(i as int)),
            inside ==> words(s@.take(i as int)) == views(r@).push(current@),
            !inside ==> words(s@.take(i as int)) == views(r@),
        decreases v@.len() - i,
    {
        let c = v[i];
        let ghost before = s@.take(i as int);
        let ghost after = s@.take(i + 1);
        assert(after.drop_last() =~= before);
        assert(after.last() == c);
        if char_is_white(c) {
            if inside {
                let ghost kept = r@;
                let mut word = String::new();
                std::mem::swap(&mut word, &mut current);
                r.push(word);
                assert(views(r@) =~= views(kept).push(word@));
                inside = false;
            }
        } else {
            if inside {
                let ghost grown = current@.push(c);
                current.push(c);
                assert(words(before).update(
                    words(before).len() - 1,
                    words(before).last().push(c),
                ) =~= views(r@).push(grown));
            } else {
                current = String::new();
                current.push(c);
                assert(current@ =~= seq![c]);
                inside = true;
            }
        }
        i = i + 1;
    }
    assert(s@.take(i as int) =~= s@);
    if inside {
        let ghost kept = r@;
        r.push(current);
        assert(views(r@) =~= views(kept).push(current@));
    }
    r
}

/// A signed number as the standard integer parsers take it: an optional sign,
/// then at least one digit, within the bounds.
pub open spec fn parse_signed(s: Seq<char>, min: int, max: int) -> Option<int> {
    if s.len() > 0 && s[0] == '-' {
        if s.len() == 1 {
            None
        } else {
            match digits_value(s.skip(1)) {
                Some(v) if -v >= min => Some(-v),
                _ => None,
            }
        }
    } else {
        match parse_unsigned(s, max as nat) {
            Some(v) => Some(v as int),
            None => None,
        }
    }
}

/// `str::parse::<i64>`.
pub fn parse_i64(s: &str) -> (r: Option<i64>)
    ensures
        r is Some <==> parse_signed(s@, i64::MIN as int, i64::MAX as int) is Some,
        r matches Some(n) ==> parse_signed(s@, i64::MIN as int, i64::MAX as int) == Some(n as int),
{
    let v = chars_of(s);
    if v.len() > 0 && v[0] == '-' {
        if v.len() == 1 {
            return None;
        }
        let digits = slice_chars(&v, 1, v.len());
        assert(digits@ =~= s@.skip(1));
        if digits[0] == '+' {
            proof {
                lemma_no_sign_in_digits(digits@);
            }
            return None;
        }
        return match parse_unsigned_chars(&digits, 0x8000_0000_0000_0000) {
            Some(n) => {
                if n == 0x8000_0000_0000_0000 {
                    Some(i64::MIN)
                } else {
                    Some(-(n as i64))
                }
            },
            None => None,
        };
    }
    match parse_unsigned_chars(&v, i64::MAX as u64) {
        Some(n) => Some(n as i64),
        None => None,
    }
}

proof fn lemma_no_sign_in_digits(s: Seq<char>)
    requires
        s.len() > 0,
        s[0] == '+',
    ensures
        digits_value(s) is None,
    decreases s.len(),
{
    if s.len() > 1 {
        lemma_no_sign_in_digits(s.drop_last());
    }
}

// ---------------------------------------------------------------------------
// Numbers with a fraction
// ---------------------------------------------------------------------------
/// What follows the sign, where there is one.
pub open spec fn past_sign(s: Seq<char>) -> Seq<char> {
    if s.len() > 0 && (s[0] == '+' || s[0] == '-') {
        s.skip(1)
    } else {
        s
    }
}

pub open spec fn all_digits(s: Seq<char>) -> bool {
    forall|i: int| 0 <= i < s.len() ==> is_digit(#[trigger] s[i])
}

/// Digits with at most one dot among them; at least one digit.
pub open spec fn is_mantissa(s: Seq<char>) -> bool {
    match s.index_of_first('.') {
        Some(k) => s.len() > 1 && all_digits(s.take(k)) && all_digits(s.skip(k + 1)),
        None => s.len() > 0 && all_digits(s),
    }
}

pub open spec fn is_exponent(s: Seq<char>) -> bool {
    past_sign(s).len() > 0 && all_digits(past_sign(s))
}

/// A mantissa and perhaps an exponent behind an `e`.
pub open spec fn is_number(s: Seq<char>) -> bool {
    match s.index_of_first('e') {
        Some(k) => is_mantissa(s.take(k)) && is_exponent(s.skip(k + 1)),
        None => is_mantissa(s),
    }
}

/// What `f64::from_str` documents to accept, in either case.
pub open spec fn is_float_text(s: Seq<char>) -> bool {
    let body = lower(past_sign(s));
    body == "inf"@ || body == "infinity"@ || body == "nan"@ || is_number(body)
}

/// The first `c` of a string is where [`split_once`] parts it.
pub proof fn lemma_first_part(s: Seq<char>, c: char, a: Seq<char>, b: Seq<char>)
    requires
        s == a + seq![c] + b,
        !a.contains(c),
    ensures
        s.index_of_first(c) == Some(a.len() as int),
        s.take(a.len() as int) == a,
        s.skip(a.len() as int + 1) == b,
{
    let i = a.len() as int;
    assert(s[i] == c);
    assert forall|j: int| 0 <= j < i implies s[j] != c by {
        assert(a[j] == s[j]);
    }
    s.index_of_first_ensures(c);
    assert(s.contains(c));
    assert(s.take(i) =~= a);
    assert(s.skip(i + 1) =~= b);
}

fn past_sign_chars(v: &[char]) -> (r: Vec<char>)
    ensures
        r@ == past_sign(v@),
{
    if v.len() > 0 && (v[0] == '+' || v[0] == '-') {
        let r = slice_chars(v, 1, v.len());
        assert(r@ =~= v@.skip(1));
        r
    } else {
        let r = slice_chars(v, 0, v.len());
        assert(r@ =~= v@);
        r
    }
}

fn digits_only(v: &[char]) -> (r: bool)
    ensures
        r == all_digits(v@),
{
    let mut i: usize = 0;
    while i < v.len()
        invariant
            i <= v@.len(),
            forall|j: int| 0 <= j < i ==> is_digit(#[trigger] v@[j]),
        decreases v@.len() - i,
    {
        if !char_is_digit(v[i]) {
            assert(!is_digit(v@[i as int]));
            return false;
        }
        i = i + 1;
    }
    true
}

fn mantissa_text(s: &str) -> (r: bool)
    ensures
        r == is_mantissa(s@),
{
    match split_once(s, '.') {
        Some((a, b)) => {
            proof {
                lemma_first_part(s@, '.', a@, b@);
            }
            let whole = chars_of(a.as_str());
            let fraction = chars_of(b.as_str());
            (whole.len() > 0 || fraction.len() > 0) && digits_only(&whole) && digits_only(&fraction)
        },
        None => {
            proof {
                s@.index_of_first_ensures('.');
            }
            let v = chars_of(s);
            v.len() > 0 && digits_only(&v)
        },
    }
}

/// Whether a text reads as a number with a fraction.
pub fn float_text(s: &str) -> (r: bool)
    ensures
        r == is_float_text(s@),
{
    let v = chars_of(s);
    let body = string_of(&lower_chars(&past_sign_chars(&v)));
    let text = body.as_str();
    if same(text, "inf") || same(text, "infinity") || same(text, "nan") {
        return true;
    }
    match split_once(text, 'e') {
        Some((a, b)) => {
            proof {
                lemma_first_part(text@, 'e', a@, b@);
            }
            let w = chars_of(b.as_str());
            let power = past_sign_chars(&w);
            mantissa_text(a.as_str()) && power.len() > 0 && digits_only(&power)
        },
        None => {
            proof {
                text@.index_of_first_ensures('e');
            }
            mantissa_text(text)
        },
    }
}

/// Some stretch of a text is another text.
pub open spec fn holds_within(s: Seq<char>, t: Seq<char>) -> bool {
    exists|before: Seq<char>, behind: Seq<char>| #[trigger] (before + t + behind) == s
}

/// A text is contained exactly where some stretch is that text.
pub proof fn lemma_contains_is_within(s: Seq<char>, t: Seq<char>)
    ensures
        contains(s, t) == holds_within(s, t),
{
    if contains(s, t) {
        let k = choose|k: int| occurs_at(s, t, k);
        let before = s.take(k);
        let behind = s.skip(k + t.len());
        assert(before + t + behind =~= s);
    }
    if holds_within(s, t) {
        let (before, behind) = choose|before: Seq<char>, behind: Seq<char>| #[trigger]
            (before + t + behind) == s;
        assert(s.subrange(before.len() as int, before.len() as int + t.len()) =~= t);
        assert(occurs_at(s, t, before.len() as int));
    }
}

proof fn lemma_next_char_shifts(a: Seq<char>, b: Seq<char>, c: char, from: int)
    requires
        0 <= from <= b.len(),
    ensures
        next_char(a + b, c, a.len() + from) == a.len() + next_char(b, c, from),
    decreases b.len() - from,
{
    if from < b.len() && b[from] != c {
        lemma_next_char_shifts(a, b, c, from + 1);
    }
}

proof fn lemma_split_shifts(a: Seq<char>, b: Seq<char>, c: char, from: int)
    requires
        0 <= from <= b.len(),
    ensures
        split_from(a + b, c, a.len() + from) == split_from(b, c, from),
    decreases b.len() - from,
{
    lemma_next_char_shifts(a, b, c, from);
    lemma_next_char(b, c, from);
    let at = next_char(b, c, from);
    if at < b.len() {
        lemma_split_shifts(a, b, c, at + 1);
        assert((a + b).subrange(a.len() + from, a.len() + at) =~= b.subrange(from, at));
    } else {
        assert((a + b).skip(a.len() + from) =~= b.skip(from));
    }
}

/// A text without the separator is one piece; else its first piece ends at the
/// first separator, and the rest is split in the same way.
pub proof fn lemma_split_parts(a: Seq<char>, c: char, b: Seq<char>)
    requires
        !a.contains(c),
    ensures
        split(a, c) == seq![a],
        split(a + seq![c] + b, c) == seq![a] + split(b, c),
{
    lemma_next_char(a, c, 0);
    if next_char(a, c, 0) < a.len() {
        assert(a.contains(a[next_char(a, c, 0)]));
    }
    assert(a.skip(0) =~= a);
    let s = a + seq![c] + b;
    lemma_next_char(s, c, 0);
    let at = next_char(s, c, 0);
    if at < a.len() {
        assert(a.contains(a[at]));
    }
    if at > a.len() {
        assert(s[a.len() as int] == c);
    }
    assert(at == a.len());
    assert(s.subrange(0, at) =~= a);
    lemma_split_shifts(a + seq![c], b, c, 0);
}

/// Trimming takes white space away at both ends and nothing else.
pub proof fn lemma_trim_takes_white_space(s: Seq<char>)
    ensures
        exists|i: int, j: int|
            0 <= i <= j <= s.len() && #[trigger] s.subrange(i, j) == trim(s) && (forall|k: int|
                0 <= k < i || j <= k < s.len() ==> is_white(#[trigger] s[k])),
        trim(s).len() > 0 ==> !is_white(trim(s)[0]) && !is_white(trim(s).last()),
{
    let i = lemma_trim_start_place(s);
    let t = s.skip(i);
    let j = lemma_trim_end_place(t);
    assert(s.subrange(i, i + j) =~= t.take(j));
    assert forall|k: int| 0 <= k < i || i + j <= k < s.len() implies is_white(#[trigger] s[k]) by {
        if k >= i + j {
            assert(t[k - i] == s[k]);
        }
    }
}

proof fn lemma_trim_start_place(s: Seq<char>) -> (i: int)
    ensures
        0 <= i <= s.len(),
        trim_start(s) == s.skip(i),
        forall|k: int| 0 <= k < i ==> is_white(#[trigger] s[k]),
        i < s.len() ==> !is_white(s[i]),
    decreases s.len(),
{
    if s.len() > 0 && is_white(s[0]) {
        let rest = lemma_trim_start_place(s.skip(1));
        assert(s.skip(1).skip(rest) =~= s.skip(rest + 1));
        assert forall|k: int| 0 <= k < rest + 1 implies is_white(#[trigger] s[k]) by {
            if k > 0 {
                assert(s.skip(1)[k - 1] == s[k]);
            }
        }
        rest + 1
    } else {
        assert(s.skip(0) =~= s);
        0
    }
}

proof fn lemma_trim_end_place(s: Seq<char>) -> (j: int)
    ensures
        0 <= j <= s.len(),
        trim_end(s) == s.take(j),
        forall|k: int| j <= k < s.len() ==> is_white(#[trigger] s[k]),
        j > 0 ==> !is_white(s[j - 1]),
    decreases s.len(),
{
    if s.len() > 0 && is_white(s.last()) {
        let rest = lemma_trim_end_place(s.drop_last());
        assert(s.drop_last().take(rest) =~= s.take(rest));
        assert forall|k: int| rest <= k < s.len() implies is_white(#[trigger] s[k]) by {
            if k < s.len() - 1 {
                assert(s.drop_last()[k] == s[k]);
            }
        }
        rest
    } else {
        assert(s.take(s.len() as int) =~= s);
        s.len() as int
    }
}

/// A padded number reads back as that number, and is at least that wide.
pub proof fn lemma_padded_decimal_value(n: nat, width: nat)
    ensures
        digits_value(padded_decimal(n, width)) == Some(n),
        padded_decimal(n, width).len() >= width,
        decimal(n).len() >= width ==> padded_decimal(n, width) == decimal(n),
    decreases width,
{
    lemma_decimal_value(n);
    let d = decimal(n);
    if d.len() < width {
        lemma_zeros_count_nothing((width - d.len()) as nat, d);
    }
}

proof fn lemma_zeros_count_nothing(zeros: nat, d: Seq<char>)
    ensures
        digits_value(Seq::new(zeros, |i: int| '0') + d) == digits_value(d),
    decreases d.len(), zeros,
{
    let z = Seq::new(zeros, |i: int| '0');
    if d.len() > 0 {
        assert((z + d).drop_last() =~= z + d.drop_last());
        lemma_zeros_count_nothing(zeros, d.drop_last());
    } else if zeros > 0 {
        assert(z + d =~= z);
        let fewer = Seq::new((zeros - 1) as nat, |i: int| '0');
        assert(z.drop_last() =~= fewer);
        lemma_zeros_count_nothing((zeros - 1) as nat, d);
        assert(fewer + d =~= fewer);
    } else {
        assert(z + d =~= d);
    }
}

/// The digits of a number have no leading zero, but for zero itself.
pub proof fn lemma_decimal_has_no_leading_zero(n: nat)
    ensures
        n > 0 ==> decimal(n)[0] != '0',
        n == 0 ==> decimal(n) == seq!['0'],
    decreases n,
{
    if n >= 10 {
        lemma_decimal_has_no_leading_zero(n / 10);
        lemma_decimal_value(n / 10);
    }
}

/// Letters come in pairs: turning one to upper case and back gives it back, and
/// nothing but letters changes.
pub proof fn lemma_letter_case(c: char)
    ensures
        is_lower(c) ==> is_upper(upper_char(c)) && lower_char(upper_char(c)) == c,
        is_upper(c) ==> is_lower(lower_char(c)) && upper_char(lower_char(c)) == c,
        !is_upper(c) ==> lower_char(c) == c,
        !is_lower(c) ==> upper_char(c) == c,
        lower_char('A') == 'a',
        lower_char('Z') == 'z',
{
}

/// Leading characters are left out and no others.
pub proof fn lemma_leading_char_left_out(n: nat, c: char, s: Seq<char>)
    requires
        s.len() > 0 ==> s[0] != c,
    ensures
        trim_start_char(Seq::new(n, |i: int| c) + s, c) == s,
    decreases n,
{
    let run = Seq::new(n, |i: int| c);
    if n > 0 {
        assert((run + s).skip(1) =~= Seq::new((n - 1) as nat, |i: int| c) + s);
        lemma_leading_char_left_out((n - 1) as nat, c, s);
    } else {
        assert(run + s =~= s);
    }
}

/// A text ends before the first stop.
pub proof fn lemma_ends_before_stop(s: Seq<char>, tail: Seq<char>, stops: Seq<char>)
    requires
        forall|i: int| 0 <= i < s.len() ==> !stops.contains(#[trigger] s[i]),
        tail.len() > 0 ==> stops.contains(tail[0]),
    ensures
        before_any(s + tail, stops) == s,
    decreases s.len(),
{
    if s.len() > 0 {
        let all = s + tail;
        assert(all[0] == s[0]);
        assert(all.skip(1) =~= s.skip(1) + tail);
        lemma_ends_before_stop(s.skip(1), tail, stops);
        assert(seq![s[0]] + s.skip(1) =~= s);
    } else {
        assert(s + tail =~= tail);
    }
}

/// A text holds what it ends in, and goes on holding what it held before.
pub proof fn lemma_text_grows(s: Seq<char>, label: Seq<char>, value: Seq<char>)
    ensures
        holds_within(s + label + value, label + value),
        forall|t: Seq<char>| #[trigger] holds_within(s, t) ==> holds_within(s + label + value, t),
        forall|t: Seq<char>| #[trigger]
            holds_within(s + label, t) ==> holds_within(s + label + value, t),
{
    let all = s + label + value;
    assert(s + (label + value) + Seq::<char>::empty() =~= all);
    assert forall|t: Seq<char>| #[trigger] holds_within(s, t) implies holds_within(all, t) by {
        let (before, behind) = choose|before: Seq<char>, behind: Seq<char>| #[trigger]
            (before + t + behind) == s;
        assert(before + t + (behind + label + value) =~= all);
    }
    assert forall|t: Seq<char>| #[trigger] holds_within(s + label, t) implies holds_within(
        all,
        t,
    ) by {
        let (before, behind) = choose|before: Seq<char>, behind: Seq<char>| #[trigger]
            (before + t + behind) == s + label;
        assert(before + t + (behind + value) =~= all);
    }
}

/// What stands behind the last separator is the last piece, whatever stands
/// before it.
pub proof fn lemma_last_piece(a: Seq<char>, c: char, b: Seq<char>)
    requires
        !b.contains(c),
    ensures
        split(a + seq![c] + b, c).last() == b,
    decreases a.len(),
{
    lemma_split_parts(b, c, b);
    if a.contains(c) {
        a.index_of_first_ensures(c);
        let k = a.index_of_first(c)->0;
        let x = a.take(k);
        let y = a.skip(k + 1);
        assert(!x.contains(c)) by {
            assert forall|j: int| 0 <= j < x.len() implies x[j] != c by {
                assert(x[j] == a[j]);
            }
        }
        let rest = y + seq![c] + b;
        assert(a + seq![c] + b =~= x + seq![c] + rest);
        lemma_split_parts(x, c, rest);
        lemma_last_piece(y, c, b);
        lemma_split_nonempty(rest, c);
    } else {
        lemma_split_parts(a, c, b);
    }
}

/// A signed number, written and read again, is the number.
pub proof fn lemma_signed_roundtrip(n: int, min: int, max: int)
    requires
        min <= n <= max,
        0 <= max,
    ensures
        parse_signed(signed_decimal(n), min, max) == Some(n),
{
    reveal_strlit("-");
    if n < 0 {
        let d = decimal((-n) as nat);
        lemma_decimal_value((-n) as nat);
        assert(signed_decimal(n)[0] == '-');
        assert(signed_decimal(n).skip(1) =~= d);
    } else {
        lemma_decimal_value(n as nat);
        assert(is_digit(decimal(n as nat)[0]));
        lemma_decimal_roundtrip(n as nat, max as nat);
    }
}

/// Letters, digits and the underscore make up words, and nothing else does.
pub proof fn lemma_word_characters(c: char)
    ensures
        is_word(c) <==> ('0' <= c <= '9') || ('A' <= c <= 'Z') || ('a' <= c <= 'z') || c == '_',
        is_digit(c) ==> !is_upper(c) && !is_lower(c),
{
}

proof fn lemma_words_of_text(s: Seq<char>)
    ensures
        in_word(s) ==> words(s).len() > 0,
    decreases s.len(),
{
    if s.len() > 0 {
        lemma_words_of_text(s.drop_last());
    }
}

/// White space parts words: the words before it and those behind it are all
/// words of a text, in order; text without white space is one word.
pub proof fn lemma_white_space_parts_words(a: Seq<char>, c: char, b: Seq<char>)
    requires
        is_white(c),
    ensures
        words(a + seq![c] + b) == words(a) + words(b),
        b.len() > 0 && (forall|i: int| 0 <= i < b.len() ==> !is_white(#[trigger] b[i])) ==> words(b)
            == seq![b],
    decreases b.len(),
{
    let all = a + seq![c] + b;
    if b.len() == 0 {
        assert(all.drop_last() =~= a);
        assert(all.last() == c);
        assert(words(all) =~= words(a) + words(b));
    } else {
        let rest = b.drop_last();
        lemma_white_space_parts_words(a, c, rest);
        assert(all.drop_last() =~= a + seq![c] + rest);
        assert(all.last() == b.last());
        lemma_words_of_text(rest);
        if rest.len() > 0 {
            assert((a + seq![c] + rest).last() == rest.last());
        } else {
            assert((a + seq![c] + rest).last() == c);
            assert(words(rest) =~= Seq::<Seq<char>>::empty());
        }
        assert(words(all) =~= words(a) + words(b));
        if forall|i: int| 0 <= i < b.len() ==> !is_white(#[trigger] b[i]) {
            assert(!is_white(b[b.len() - 1]));
            if rest.len() > 0 {
                assert forall|i: int| 0 <= i < rest.len() implies !is_white(#[trigger] rest[i]) by {
                    assert(rest[i] == b[i]);
                }
                assert(words(rest) == seq![rest]);
                assert(!is_white(rest.last()));
                assert(rest.push(b.last()) =~= b);
            } else {
                assert(seq![b.last()] =~= b);
            }
            assert(words(b) =~= seq![b]);
        }
    }
}

/// A line ends at its line feed, without a carriage return before that; what
/// follows is read as lines of their own.
pub proof fn lemma_lines_end_at_feeds(a: Seq<char>, b: Seq<char>)
    requires
        !a.contains('\n'),
    ensures
        lines(a + seq!['\n'] + b) == seq![without_cr(a)] + lines(b),
        a.len() > 0 ==> lines(a) == seq![a],
        lines(Seq::empty()) == Seq::<Seq<char>>::empty(),
        without_cr(a.push('\r')) == a,
        a.len() == 0 || a.last() != '\r' ==> without_cr(a) == a,
{
    let s = a + seq!['\n'] + b;
    lemma_next_char(s, '\n', 0);
    let at = next_char(s, '\n', 0);
    if at < a.len() {
        assert(a.contains(a[at]));
    }
    if at > a.len() {
        assert(s[a.len() as int] == '\n');
    }
    assert(at == a.len());
    assert(s.subrange(0, at) =~= a);
    lemma_lines_shift(a + seq!['\n'], b, 0);
    lemma_next_char(a, '\n', 0);
    if next_char(a, '\n', 0) < a.len() {
        assert(a.contains(a[next_char(a, '\n', 0)]));
    }
    assert(a.skip(0) =~= a);
    assert(a.push('\r').drop_last() =~= a);
}

proof fn lemma_lines_shift(a: Seq<char>, b: Seq<char>, from: int)
    requires
        0 <= from <= b.len(),
    ensures
        lines_from(a + b, a.len() + from) == lines_from(b, from),
    decreases b.len() - from,
{
    let s = a + b;
    lemma_next_char(b, '\n', from);
    lemma_next_char_shifts(a, b, '\n', from);
    let at = next_char(b, '\n', from);
    if from < b.len() {
        if at < b.len() {
            lemma_lines_shift(a, b, at + 1);
            assert(s.subrange(a.len() + from, a.len() + at) =~= b.subrange(from, at));
        } else {
            assert(s.skip(a.len() + from) =~= b.skip(from));
        }
    }
}

/// Decimal numbers, with or without a fraction, are numbers; a text with any
/// other character in its fraction is none.
pub proof fn lemma_decimal_fractions_are_numbers(whole: nat, fraction: nat, bad: char)
    requires
        !is_digit(bad),
        bad != '.' && bad != 'e' && bad != 'E',
    ensures
        is_mantissa(decimal(whole)),
        is_mantissa(decimal(whole) + seq!['.'] + decimal(fraction)),
        is_number(decimal(whole) + seq!['.'] + decimal(fraction)),
        is_number(decimal(whole)),
        !is_mantissa(decimal(whole) + seq!['.'] + decimal(fraction).push(bad)),
        !is_number(decimal(whole) + seq!['.'] + decimal(fraction).push(bad)),
        !is_mantissa(Seq::empty()),
{
    lemma_decimal_value(whole);
    lemma_decimal_value(fraction);
    let w = decimal(whole);
    let f = decimal(fraction);
    let s = w + seq!['.'] + f;
    let b = w + seq!['.'] + f.push(bad);
    assert forall|i: int| 0 <= i < w.len() implies w[i] != '.' && w[i] != 'e' by {
        assert(is_digit(w[i]));
    }
    assert forall|i: int| 0 <= i < s.len() implies s[i] != 'e' by {
        if i > w.len() {
            assert(is_digit(f[i - w.len() - 1]));
        }
    }
    assert forall|i: int| 0 <= i < b.len() implies b[i] != 'e' by {
        if w.len() < i < b.len() - 1 {
            assert(is_digit(f[i - w.len() - 1]));
        }
    }
    w.index_of_first_ensures('.');
    w.index_of_first_ensures('e');
    s.index_of_first_ensures('e');
    b.index_of_first_ensures('e');
    lemma_first_part(s, '.', w, f);
    lemma_first_part(b, '.', w, f.push(bad));
    let g = f.push(bad);
    assert(!is_digit(g[g.len() - 1]));
    Seq::<char>::empty().index_of_first_ensures('.');
}

} // verus!
