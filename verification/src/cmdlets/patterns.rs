//! Names against wildcard patterns: `*` stands for any run of characters, `?` for
//! one character, and letters of the ASCII alphabet count without regard to case.

use vstd::prelude::*;
use crate::text::{chars_of, lemma_deep_view_push, string_from, trim, trimmed};
use crate::value::{display_chars, display_text, lemma_value_views, Value, ValueView};

verus! {

/// A letter of the ASCII alphabet in lower case; any other character itself.
pub open spec fn ascii_lower(c: char) -> char {
    if c == 'A' {
        'a'
    } else if c == 'B' {
        'b'
    } else if c == 'C' {
        'c'
    } else if c == 'D' {
        'd'
    } else if c == 'E' {
        'e'
    } else if c == 'F' {
        'f'
    } else if c == 'G' {
        'g'
    } else if c == 'H' {
        'h'
    } else if c == 'I' {
        'i'
    } else if c == 'J' {
        'j'
    } else if c == 'K' {
        'k'
    } else if c == 'L' {
        'l'
    } else if c == 'M' {
        'm'
    } else if c == 'N' {
        'n'
    } else if c == 'O' {
        'o'
    } else if c == 'P' {
        'p'
    } else if c == 'Q' {
        'q'
    } else if c == 'R' {
        'r'
    } else if c == 'S' {
        's'
    } else if c == 'T' {
        't'
    } else if c == 'U' {
        'u'
    } else if c == 'V' {
        'v'
    } else if c == 'W' {
        'w'
    } else if c == 'X' {
        'x'
    } else if c == 'Y' {
        'y'
    } else if c == 'Z' {
        'z'
    } else {
        c
    }
}

/// Whether a character of a pattern stands for a character of a name.
pub open spec fn stands_for(p: char, t: char) -> bool {
    p == '?' || ascii_lower(p) == ascii_lower(t)
}

/// Whether the pattern from index `pi` on matches the name from index `ti` on.
pub open spec fn matches_from(p: Seq<char>, pi: int, t: Seq<char>, ti: int) -> bool
    decreases p.len() - pi, t.len() - ti,
{
    if pi < 0 || ti < 0 || ti > t.len() {
        false
    } else if pi >= p.len() {
        ti == t.len()
    } else if p[pi] == '*' {
        matches_from(p, pi + 1, t, ti) || (ti < t.len() && matches_from(p, pi, t, ti + 1))
    } else {
        ti < t.len() && stands_for(p[pi], t[ti]) && matches_from(p, pi + 1, t, ti + 1)
    }
}

/// Whether a pattern matches a name.
pub open spec fn wildcard_matches(pattern: Seq<char>, name: Seq<char>) -> bool {
    matches_from(pattern, 0, name, 0)
}

/// Whether one of the patterns matches the name.
pub open spec fn any_matches(name: Seq<char>, patterns: Seq<Seq<char>>) -> bool {
    exists|i: int| 0 <= i < patterns.len() && wildcard_matches(#[trigger] patterns[i], name)
}

/// Whether a name is listed: it matches a filter pattern and an include pattern,
/// where there are any, and no exclude pattern.
pub open spec fn name_is_listed(
    name: Seq<char>,
    filters: Seq<Seq<char>>,
    includes: Seq<Seq<char>>,
    excludes: Seq<Seq<char>>,
) -> bool {
    (filters.len() == 0 || any_matches(name, filters)) && (includes.len() == 0 || any_matches(name, includes)) && !(
    excludes.len() > 0 && any_matches(name, excludes))
}

fn lower(c: char) -> (r: char)
    ensures
        r == ascii_lower(c),
{
    if c == 'A' {
        'a'
    } else if c == 'B' {
        'b'
    } else if c == 'C' {
        'c'
    } else if c == 'D' {
        'd'
    } else if c == 'E' {
        'e'
    } else if c == 'F' {
        'f'
    } else if c == 'G' {
        'g'
    } else if c == 'H' {
        'h'
    } else if c == 'I' {
        'i'
    } else if c == 'J' {
        'j'
    } else if c == 'K' {
        'k'
    } else if c == 'L' {
        'l'
    } else if c == 'M' {
        'm'
    } else if c == 'N' {
        'n'
    } else if c == 'O' {
        'o'
    } else if c == 'P' {
        'p'
    } else if c == 'Q' {
        'q'
    } else if c == 'R' {
        'r'
    } else if c == 'S' {
        's'
    } else if c == 'T' {
        't'
    } else if c == 'U' {
        'u'
    } else if c == 'V' {
        'v'
    } else if c == 'W' {
        'w'
    } else if c == 'X' {
        'x'
    } else if c == 'Y' {
        'y'
    } else if c == 'Z' {
        'z'
    } else {
        c
    }
}

/// Whether a pattern matches a name.
pub fn wildcard_match_case_insensitive(pattern: &str, text: &str) -> (r: bool)
    ensures
        r == wildcard_matches(pattern@, text@),
{
    let p = chars_of(pattern);
    let t = chars_of(text);
    let n = t.len();
    // row[ti] tells whether the pattern from `pi` on matches the name from `ti` on
    let mut row: Vec<bool> = Vec::new();
    let mut k: usize = 0;
    while k < n
        invariant
            k <= n,
            n == t.len(),
            row.len() == k,
            forall|j: int| 0 <= j < k ==> row[j] == matches_from(p@, p.len() as int, t@, j),
        decreases n - k,
    {
        row.push(false);
        k += 1;
    }
    row.push(true);
    let mut pi: usize = p.len();
    while pi > 0
        invariant
            pi <= p.len(),
            n == t.len(),
            row.len() == n + 1,
            forall|j: int| 0 <= j <= n ==> row[j] == matches_from(p@, pi as int, t@, j),
        decreases pi,
    {
        pi -= 1;
        let c = p[pi];
        let mut next: Vec<bool> = Vec::new();
        let mut fill: usize = 0;
        while fill < n
            invariant
                fill <= n,
                next.len() == fill,
            decreases n - fill,
        {
            next.push(false);
            fill += 1;
        }
        next.push(c == '*' && row[n]);
        let mut ti: usize = n;
        while ti > 0
            invariant
                ti <= n,
                n == t.len(),
                pi < p.len(),
                c == p@[pi as int],
                row.len() == n + 1,
                next.len() == n + 1,
                forall|j: int| 0 <= j <= n ==> row[j] == matches_from(p@, pi + 1, t@, j),
                forall|j: int| ti <= j <= n ==> next[j] == matches_from(p@, pi as int, t@, j),
            decreases ti,
        {
            ti -= 1;
            let value = if c == '*' {
                row[ti] || next[ti + 1]
            } else {
                (c == '?' || lower(c) == lower(t[ti])) && row[ti + 1]
            };
            next.set(ti, value);
        }
        row = next;
    }
    row[0]
}

/// Whether one of the patterns matches the name.
pub fn matches_any_pattern(name: &str, patterns: &Vec<String>) -> (r: bool)
    ensures
        r == any_matches(name@, patterns.deep_view()),
{
    let mut i: usize = 0;
    while i < patterns.len()
        invariant
            i <= patterns.len(),
            forall|j: int| 0 <= j < i ==> !wildcard_matches(#[trigger] patterns.deep_view()[j], name@),
        decreases patterns.len() - i,
    {
        if wildcard_match_case_insensitive(patterns[i].as_str(), name) {
            assert(wildcard_matches(patterns.deep_view()[i as int], name@));
            return true;
        }
        i += 1;
    }
    false
}

/// Whether a name is listed under the filter, include and exclude patterns.
pub fn should_output_name(name: &str, filter_patterns: &Vec<String>, include_patterns: &Vec<String>, exclude_patterns: &Vec<
    String,
>) -> (r: bool)
    ensures
        r == name_is_listed(
            name@,
            filter_patterns.deep_view(),
            include_patterns.deep_view(),
            exclude_patterns.deep_view(),
        ),
{
    if filter_patterns.len() > 0 && !matches_any_pattern(name, filter_patterns) {
        return false;
    }
    if include_patterns.len() > 0 && !matches_any_pattern(name, include_patterns) {
        return false;
    }
    if exclude_patterns.len() > 0 && matches_any_pattern(name, exclude_patterns) {
        return false;
    }
    true
}

/// The end of the piece that starts at `i`: the index of the next comma, or the end
/// of the text.
pub open spec fn piece_end(s: Seq<char>, i: int) -> int
    decreases s.len() - i,
{
    if 0 <= i < s.len() && s[i] != ',' {
        piece_end(s, i + 1)
    } else {
        i
    }
}

/// The pieces of a text between its commas from index `i` on, each without the white
/// space at its ends, and without the empty ones; behind those of `acc`.
pub open spec fn pieces(s: Seq<char>, i: int, acc: Seq<Seq<char>>) -> Seq<Seq<char>>
    decreases s.len() - i,
{
    if !(0 <= i <= s.len()) {
        acc
    } else {
        let end = piece_end(s, i);
        let piece = trimmed(s.subrange(i, if i <= end <= s.len() {
            end
        } else {
            i
        }));
        let all = if piece.len() > 0 {
            acc.push(piece)
        } else {
            acc
        };
        if i <= end < s.len() {
            pieces(s, end + 1, all)
        } else {
            all
        }
    }
}

/// The patterns that the strings among the first `n` values list.
pub open spec fn patterns_among(values: Seq<ValueView>, n: int) -> Seq<Seq<char>>
    decreases n,
{
    if n <= 0 || n > values.len() {
        Seq::empty()
    } else {
        match values[n - 1] {
            ValueView::String(s) => pieces(s, 0, patterns_among(values, n - 1)),
            _ => patterns_among(values, n - 1),
        }
    }
}

/// The patterns that a value lists: those of a string, which commas divide; those
/// of the strings of an array; the text of any other value.
pub open spec fn pattern_list(value: Option<ValueView>) -> Seq<Seq<char>> {
    match value {
        None => Seq::empty(),
        Some(ValueView::String(s)) => pieces(s, 0, Seq::empty()),
        Some(ValueView::Array(items)) => patterns_among(items, items.len() as int),
        Some(other) => seq![display_text(other)],
    }
}

fn push_pieces(out: &mut Vec<String>, text: &str)
    ensures
        final(out).deep_view() == pieces(text@, 0, old(out).deep_view()),
{
    let s = chars_of(text);
    let mut i: usize = 0;
    loop
        invariant
            i <= s.len(),
            s@ == text@,
            pieces(s@, i as int, out.deep_view()) == pieces(s@, 0, old(out).deep_view()),
        decreases s.len() - i,
    {
        let mut end: usize = i;
        while end < s.len() && s[end] != ','
            invariant
                i <= end <= s.len(),
                piece_end(s@, end as int) == piece_end(s@, i as int),
            decreases s.len() - end,
        {
            end += 1;
        }
        let raw = crate::text::string_of(&s, i, end);
        let piece = trim(raw.as_str());
        let piece_chars = chars_of(piece.as_str());
        if piece_chars.len() > 0 {
            let ghost before = *out;
            out.push(piece);
            proof {
                lemma_deep_view_push(before, *out, piece);
            }
        }
        if end < s.len() {
            i = end + 1;
        } else {
            return ;
        }
    }
}

/// Reads a list of patterns.
pub fn parse_string_patterns(value: Option<&Value>) -> (r: Vec<String>)
    ensures
        r.deep_view() == pattern_list(value.deep_view()),
{
    let mut out: Vec<String> = Vec::new();
    assert(out.deep_view() =~= Seq::<Seq<char>>::empty());
    match value {
        None => {},
        Some(v) => {
            proof {
                lemma_value_views(*v);
            }
            match v {
                Value::String(s) => {
                    push_pieces(&mut out, s.as_str());
                },
                Value::Array(items) => {
                    let mut i: usize = 0;
                    while i < items.len()
                        invariant
                            i <= items.len(),
                            out.deep_view() == patterns_among(items.deep_view(), i as int),
                        decreases items.len() - i,
                    {
                        match &items[i] {
                            Value::String(s) => {
                                push_pieces(&mut out, s.as_str());
                            },
                            _ => {},
                        }
                        i += 1;
                    }
                },
                other => {
                    let text = string_from(&display_chars(other));
                    out.push(text);
                    assert(out.deep_view() =~= seq![text@]);
                },
            }
        },
    }
    out
}

} // verus!
