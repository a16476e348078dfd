//! Output file names that are safe on every platform.
//!
//! Windows forbids `<>:"/\|?*` and trailing dots and spaces. Names keep to
//! that rule everywhere.

use crate::text::{
    char_is_control, chars_of, decimal, decimal_of, has_char, is_control, lemma_decimal_value,
    string_of,
};
use vstd::prelude::*;
use vstd::string::StringExecFns;

verus! {

/// The characters that no name may hold.
pub open spec fn illegal_chars() -> Seq<char> {
    seq!['<', '>', ':', '"', '/', '\\', '|', '?', '*']
}

pub open spec fn is_illegal(c: char) -> bool {
    illegal_chars().contains(c) || is_control(c)
}

/// Each illegal character replaced by an underscore.
pub open spec fn replaced(s: Seq<char>) -> Seq<char> {
    s.map_values(
        |c: char|
            if is_illegal(c) {
                '_'
            } else {
                c
            },
    )
}

/// `s` without its trailing dots and spaces.
pub open spec fn without_tail(s: Seq<char>) -> Seq<char>
    decreases s.len(),
{
    if s.len() > 0 && (s.last() == '.' || s.last() == ' ') {
        without_tail(s.drop_last())
    } else {
        s
    }
}

/// A raw name made safe; `download` where nothing is left of it.
pub open spec fn safe_component(raw: Seq<char>) -> Seq<char> {
    let cleaned = without_tail(replaced(raw));
    if cleaned.len() == 0 {
        "download"@
    } else {
        cleaned
    }
}

pub fn sanitize_component(raw: &str) -> (r: String)
    ensures
        r@ == safe_component(raw@),
{
    let illegal: [char; 9] = ['<', '>', ':', '"', '/', '\\', '|', '?', '*'];
    assert(illegal@ =~= illegal_chars());
    let v = chars_of(raw);
    let mut cleaned: Vec<char> = Vec::new();
    let mut i: usize = 0;
    while i < v.len()
        invariant
            i <= v@.len(),
            illegal@ == illegal_chars(),
            cleaned@ == replaced(v@.take(i as int)),
        decreases v@.len() - i,
    {
        let c = v[i];
        if has_char(&illegal, c) || char_is_control(c) {
            cleaned.push('_');
        } else {
            cleaned.push(c);
        }
        i = i + 1;
        assert(cleaned@ =~= replaced(v@.take(i as int)));
    }
    assert(v@.take(i as int) =~= v@);
    let ghost full = cleaned@;
    while cleaned.len() > 0 && (cleaned[cleaned.len() - 1] == '.' || cleaned[cleaned.len() - 1]
        == ' ')
        invariant
            without_tail(full) == without_tail(cleaned@),
        decreases cleaned@.len(),
    {
        let ghost before = cleaned@;
        let _ = cleaned.pop();
        assert(cleaned@ =~= before.drop_last());
    }
    if cleaned.len() == 0 {
        "download".to_owned()
    } else {
        string_of(&cleaned)
    }
}

proof fn lemma_tail_keeps(s: Seq<char>)
    ensures
        without_tail(s).len() <= s.len(),
        without_tail(s) == s.take(without_tail(s).len() as int),
        without_tail(s).len() > 0 ==> without_tail(s).last() != '.' && without_tail(s).last()
            != ' ',
    decreases s.len(),
{
    if s.len() > 0 && (s.last() == '.' || s.last() == ' ') {
        lemma_tail_keeps(s.drop_last());
        assert(s.drop_last().take(without_tail(s).len() as int) =~= s.take(
            without_tail(s).len() as int,
        ));
    } else {
        assert(s.take(s.len() as int) =~= s);
    }
}

/// A safe name is not empty, holds no illegal character and does not end in a
/// dot or a space.
pub proof fn lemma_safe_component_is_legal(raw: Seq<char>)
    ensures
        safe_component(raw).len() > 0,
        forall|i: int|
            0 <= i < safe_component(raw).len() ==> !is_illegal(#[trigger] safe_component(raw)[i]),
        safe_component(raw).last() != '.',
        safe_component(raw).last() != ' ',
{
    reveal_strlit("download");
    lemma_tail_keeps(replaced(raw));
    let cleaned = without_tail(replaced(raw));
    assert forall|i: int| 0 <= i < safe_component(raw).len() implies !is_illegal(
        #[trigger] safe_component(raw)[i],
    ) by {
        assert(illegal_chars().len() == 9);
        if cleaned.len() > 0 {
            assert(cleaned[i] == replaced(raw)[i]);
        }
    }
}

/// `<user>_<tweet id>.<extension>`, with the user name made safe.
pub fn base_name(user: &str, tweet_id: u64, ext: &str) -> (r: String)
    ensures
        r@ == safe_component(user@) + "_"@ + decimal(tweet_id as nat) + "."@ + ext@,
{
    let mut s = sanitize_component(user);
    s.append("_");
    s.append(decimal_of(tweet_id).as_str());
    s.append(".");
    s.append(ext);
    s
}

/// The name tried at the `n`-th collision: the number stands before the
/// extension.
pub open spec fn numbered_name(stem: Seq<char>, ext: Option<Seq<char>>, n: nat) -> Seq<char> {
    match ext {
        Some(e) => stem + "-"@ + decimal(n) + "."@ + e,
        None => stem + "-"@ + decimal(n),
    }
}

/// Each collision number gives another name, so a free one is found in the end.
pub proof fn lemma_collision_names_differ(stem: Seq<char>, ext: Option<Seq<char>>, a: nat, b: nat)
    requires
        a != b,
    ensures
        numbered_name(stem, ext, a) != numbered_name(stem, ext, b),
{
    let na = numbered_name(stem, ext, a);
    let nb = numbered_name(stem, ext, b);
    reveal_strlit("-");
    reveal_strlit(".");
    lemma_decimal_value(a);
    lemma_decimal_value(b);
    if na == nb {
        let k = stem.len() as int + 1;
        let tail = match ext {
            Some(e) => e.len() as int + 1,
            None => 0,
        };
        assert(na.subrange(k, na.len() - tail) =~= decimal(a));
        assert(nb.subrange(k, nb.len() - tail) =~= decimal(b));
    }
}

/// The candidate for one collision number.
pub fn collision_name(stem: &str, ext: Option<&str>, suffix: u32) -> (r: String)
    ensures
        r@ == numbered_name(
            stem@,
            match ext {
                Some(e) => Some(e@),
                None => None,
            },
            suffix as nat,
        ),
{
    let mut s = stem.to_owned();
    s.append("-");
    s.append(decimal_of(suffix as u64).as_str());
    if let Some(e) = ext {
        s.append(".");
        s.append(e);
    }
    s
}

/// A name keeps its characters, each in its place, but for illegal ones and the
/// dots and spaces at its end; a legal name is left as it is.
pub proof fn lemma_names_keep_legal_characters(raw: Seq<char>, i: int)
    requires
        safe_component(raw) != "download"@,
    ensures
        safe_component(raw).len() <= raw.len(),
        0 <= i < safe_component(raw).len() ==> safe_component(raw)[i] == (if is_illegal(raw[i]) {
            '_'
        } else {
            raw[i]
        }),
        safe_component(raw).len() <= i < raw.len() ==> raw[i] == '.' || raw[i] == ' ',
{
    lemma_tail_is_dots_and_spaces(replaced(raw), i);
    if safe_component(raw).len() <= i < raw.len() {
        assert(replaced(raw)[i] == if is_illegal(raw[i]) { '_' } else { raw[i] });
    }
}

/// A legal name is left as it is.
pub proof fn lemma_legal_names_stay(raw: Seq<char>)
    requires
        raw.len() > 0,
        raw.last() != '.' && raw.last() != ' ',
        forall|i: int| 0 <= i < raw.len() ==> !is_illegal(#[trigger] raw[i]),
    ensures
        safe_component(raw) == raw,
{
    assert forall|i: int| 0 <= i < raw.len() implies replaced(raw)[i] == raw[i] by {
        assert(!is_illegal(raw[i]));
    }
    assert(replaced(raw) =~= raw);
}

proof fn lemma_tail_is_dots_and_spaces(s: Seq<char>, i: int)
    ensures
        without_tail(s).len() <= s.len(),
        0 <= i < without_tail(s).len() ==> without_tail(s)[i] == s[i],
        without_tail(s).len() <= i < s.len() ==> s[i] == '.' || s[i] == ' ',
    decreases s.len(),
{
    if s.len() > 0 && (s.last() == '.' || s.last() == ' ') {
        lemma_tail_is_dots_and_spaces(s.drop_last(), i);
    }
}

/// Nine characters and all control characters are illegal, no others.
pub proof fn lemma_illegal_characters(c: char)
    ensures
        is_illegal(c) <==> c == '<' || c == '>' || c == ':' || c == '"' || c == '/' || c == '\\'
            || c == '|' || c == '?' || c == '*' || c <= '\u{1f}' || '\u{7f}' <= c <= '\u{9f}',
{
    let all = illegal_chars();
    assert(all[0] == '<' && all[1] == '>' && all[2] == ':' && all[3] == '"' && all[4] == '/');
    assert(all[5] == '\\' && all[6] == '|' && all[7] == '?' && all[8] == '*');
}

/// A numbered name begins with the stem and ends in the extension.
pub proof fn lemma_numbered_names_keep_stem_and_extension(
    stem: Seq<char>,
    ext: Seq<char>,
    n: nat,
)
    ensures
        stem.is_prefix_of(numbered_name(stem, Some(ext), n)),
        ext.is_suffix_of(numbered_name(stem, Some(ext), n)),
        numbered_name(stem, Some(ext), n) == numbered_name(stem, None, n) + "."@ + ext,
        stem.is_prefix_of(numbered_name(stem, None, n)),
{
    let a = numbered_name(stem, Some(ext), n);
    let b = numbered_name(stem, None, n);
    assert(a.take(stem.len() as int) =~= stem);
    assert(b.take(stem.len() as int) =~= stem);
    assert(a.skip(a.len() - ext.len()) =~= ext);
}

} // verus!
