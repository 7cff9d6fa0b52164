use vstd::prelude::*;

use crate::search::{
    first_index, last_index, lemma_first_index, lemma_first_index_agree,
    lemma_first_index_unique, lemma_last_index, lemma_last_index_agree, lemma_last_index_unique,
};

verus! {

/// Whether `c` has the Unicode White_Space property.
pub open spec fn is_white_space(c: char) -> bool {
    ||| '\t' <= c <= '\r'
    ||| c == ' '
    ||| c == '\u{85}'
    ||| c == '\u{a0}'
    ||| c == '\u{1680}'
    ||| '\u{2000}' <= c <= '\u{200a}'
    ||| c == '\u{2028}'
    ||| c == '\u{2029}'
    ||| c == '\u{202f}'
    ||| c == '\u{205f}'
    ||| c == '\u{3000}'
}

/// A character that is not white space.
pub open spec fn visible() -> spec_fn(char) -> bool {
    |c: char| !is_white_space(c)
}

/// `s` without its leading and trailing white space.
pub open spec fn trimmed(s: Seq<char>) -> Seq<char> {
    let start = match first_index(s, visible(), 0, s.len() as int) {
        Some(i) => i,
        None => s.len() as int,
    };
    let end = match last_index(s, visible(), start, s.len() as int) {
        Some(i) => i + 1,
        None => start,
    };
    s.subrange(start, end)
}

/// `c` with ASCII capitals made small.
pub open spec fn ascii_lower(c: char) -> char {
    if 'A' <= c <= 'Z' {
        ((c as u32) + 32) as char
    } else {
        c
    }
}

/// `s` with ASCII capitals made small.
pub open spec fn ascii_lowered(s: Seq<char>) -> Seq<char> {
    s.map_values(|c: char| ascii_lower(c))
}

/// The unit a time value was written in.
#[derive(Clone, Copy, Debug, PartialEq, Eq, Structural)]
pub enum TimeUnit {
    Milliseconds,
    Seconds,
}

/// How a written time value divides into its number and its unit: white space around
/// it is ignored, letters are read without case, a final `ms` marks milliseconds, a
/// final `s` seconds, and a bare number is in milliseconds.
pub open spec fn time_parts(text: Seq<char>) -> (Seq<char>, TimeUnit) {
    let t = ascii_lowered(trimmed(text));
    let n = t.len();
    if n >= 2 && t[n - 2] == 'm' && t[n - 1] == 's' {
        (trimmed(t.take(n - 2)), TimeUnit::Milliseconds)
    } else if n >= 1 && t[n - 1] == 's' {
        (trimmed(t.take(n - 1)), TimeUnit::Seconds)
    } else {
        (t, TimeUnit::Milliseconds)
    }
}

/// Whether `c` has the Unicode White_Space property.
pub fn is_white_space_char(c: char) -> (b: bool)
    ensures
        b == is_white_space(c),
{
    ('\t' <= c && c <= '\r') || c == ' ' || c == '\u{85}' || c == '\u{a0}' || c == '\u{1680}' || (
    '\u{2000}' <= c && c <= '\u{200a}') || c == '\u{2028}' || c == '\u{2029}' || c == '\u{202f}'
        || c == '\u{205f}' || c == '\u{3000}'
}

/// The first `n` characters of `s`.
fn prefix(s: &Vec<char>, n: usize) -> (r: Vec<char>)
    requires
        n <= s.len(),
    ensures
        r@ == s@.take(n as int),
{
    let mut r: Vec<char> = Vec::new();
    let mut k: usize = 0;
    while k < n
        invariant
            k <= n <= s.len(),
            r@ == s@.take(k as int),
        decreases n - k,
    {
        r.push(s[k]);
        assert(s@.take(k + 1) =~= s@.take(k as int).push(s@[k as int]));
        k += 1;
    }
    r
}

/// `s` without its leading and trailing white space.
pub fn trim_chars(s: &Vec<char>) -> (r: Vec<char>)
    ensures
        r@ == trimmed(s@),
{
    let mut start: usize = 0;
    while start < s.len()
        invariant
            start <= s.len(),
            first_index(s@, visible(), 0, s.len() as int) == first_index(
                s@,
                visible(),
                start as int,
                s.len() as int,
            ),
        ensures
            start <= s.len(),
            start < s.len() ==> !is_white_space(s@[start as int]),
            first_index(s@, visible(), 0, s.len() as int) == first_index(
                s@,
                visible(),
                start as int,
                s.len() as int,
            ),
        decreases s.len() - start,
    {
        if !is_white_space_char(s[start]) {
            break;
        }
        start += 1;
    }
    proof {
        lemma_first_index(s@, visible(), start as int, s.len() as int);
    }
    let mut end: usize = s.len();
    while end > start
        invariant
            start <= end <= s.len(),
            last_index(s@, visible(), start as int, s.len() as int) == last_index(
                s@,
                visible(),
                start as int,
                end as int,
            ),
        ensures
            start <= end <= s.len(),
            end > start ==> !is_white_space(s@[end - 1]),
            last_index(s@, visible(), start as int, s.len() as int) == last_index(
                s@,
                visible(),
                start as int,
                end as int,
            ),
        decreases end - start,
    {
        if !is_white_space_char(s[end - 1]) {
            break;
        }
        end -= 1;
    }
    let mut r: Vec<char> = Vec::new();
    let mut k: usize = start;
    while k < end
        invariant
            start <= k <= end <= s.len(),
            r@ == s@.subrange(start as int, k as int),
        decreases end - k,
    {
        r.push(s[k]);
        assert(s@.subrange(start as int, k + 1) =~= s@.subrange(start as int, k as int).push(
            s@[k as int],
        ));
        k += 1;
    }
    r
}

/// `s` with ASCII capitals made small.
pub fn ascii_lowercase_chars(s: &Vec<char>) -> (r: Vec<char>)
    ensures
        r@ == ascii_lowered(s@),
{
    let mut r: Vec<char> = Vec::new();
    let mut k: usize = 0;
    while k < s.len()
        invariant
            k <= s.len(),
            r@.len() == k,
            forall|j: int| 0 <= j < k ==> r@[j] == ascii_lower(#[trigger] s@[j]),
        decreases s.len() - k,
    {
        let c = s[k];
        let lower = if 'A' <= c && c <= 'Z' {
            ((c as u8) + 32) as char
        } else {
            c
        };
        r.push(lower);
        k += 1;
    }
    assert(r@ =~= ascii_lowered(s@));
    r
}

/// Divides a written time value into its number and its unit.
pub fn split_time_text(text: &Vec<char>) -> (r: (Vec<char>, TimeUnit))
    ensures
        r.0@ == time_parts(text@).0,
        r.1 == time_parts(text@).1,
{
    let trimmed_text = trim_chars(text);
    let t = ascii_lowercase_chars(&trimmed_text);
    let n = t.len();
    if n >= 2 && t[n - 2] == 'm' && t[n - 1] == 's' {
        let number = prefix(&t, n - 2);
        (trim_chars(&number), TimeUnit::Milliseconds)
    } else if n >= 1 && t[n - 1] == 's' {
        let number = prefix(&t, n - 1);
        (trim_chars(&number), TimeUnit::Seconds)
    } else {
        (t, TimeUnit::Milliseconds)
    }
}

proof fn lemma_lower_keeps_white_space(c: char)
    ensures
        is_white_space(ascii_lower(c)) == is_white_space(c),
        ascii_lower(ascii_lower(c)) == ascii_lower(c),
{
}

proof fn lemma_trim_then_lower(s: Seq<char>)
    ensures
        trimmed(ascii_lowered(s)) == ascii_lowered(trimmed(s)),
{
    let l = ascii_lowered(s);
    assert forall|j: int| 0 <= j < s.len() implies visible()(#[trigger] l[j]) == visible()(s[j]) by {
        lemma_lower_keeps_white_space(s[j]);
    }
    lemma_first_index_agree(l, s, visible(), 0, s.len() as int);
    let start = match first_index(s, visible(), 0, s.len() as int) {
        Some(i) => i,
        None => s.len() as int,
    };
    lemma_first_index(s, visible(), 0, s.len() as int);
    lemma_last_index_agree(l, s, visible(), start, s.len() as int);
    lemma_last_index(s, visible(), start, s.len() as int);
    let end = match last_index(s, visible(), start, s.len() as int) {
        Some(i) => i + 1,
        None => start,
    };
    assert(l.len() == s.len());
    assert(trimmed(l) == l.subrange(start, end));
    assert(trimmed(s) == s.subrange(start, end));
    assert(trimmed(l) =~= ascii_lowered(trimmed(s)));
}

/// Letters in a written time value are read without regard to case.
pub proof fn law_time_text_ignores_case(text: Seq<char>)
    ensures
        time_parts(ascii_lowered(text)) == time_parts(text),
{
    lemma_trim_then_lower(text);
    let t = trimmed(text);
    assert forall|j: int| 0 <= j < t.len() implies #[trigger] ascii_lowered(ascii_lowered(t))[j]
        == ascii_lowered(t)[j] by {
        lemma_lower_keeps_white_space(t[j]);
    }
    assert(ascii_lowered(ascii_lowered(t)) =~= ascii_lowered(t));
}

/// Whether every character of `s` is white space.
pub open spec fn all_white_space(s: Seq<char>) -> bool {
    forall|j: int| 0 <= j < s.len() ==> is_white_space(#[trigger] s[j])
}

proof fn lemma_trim_ignores_padding(before: Seq<char>, text: Seq<char>, after: Seq<char>)
    requires
        all_white_space(before),
        all_white_space(after),
    ensures
        trimmed(before + text + after) == trimmed(text),
{
    let u = before + text + after;
    let b = before.len() as int;
    let n = text.len() as int;
    assert forall|j: int| 0 <= j < u.len() implies #[trigger] u[j] == if j < b {
        before[j]
    } else if j < b + n {
        text[j - b]
    } else {
        after[j - b - n]
    } by {}
    lemma_first_index(text, visible(), 0, n);
    match first_index(text, visible(), 0, n) {
        Some(a) => {
            lemma_first_index_unique(u, visible(), 0, u.len() as int, b + a);
            lemma_last_index(text, visible(), a, n);
            let z = last_index(text, visible(), a, n)->0;
            lemma_last_index_unique(u, visible(), b + a, u.len() as int, b + z);
            assert(trimmed(u) =~= trimmed(text));
        },
        None => {
            lemma_first_index(u, visible(), 0, u.len() as int);
            assert(first_index(u, visible(), 0, u.len() as int) is None);
            assert(trimmed(u) =~= trimmed(text));
        },
    }
}

/// White space around a written time value does not change how it is read.
pub proof fn law_time_text_ignores_padding(before: Seq<char>, text: Seq<char>, after: Seq<char>)
    requires
        all_white_space(before),
        all_white_space(after),
    ensures
        time_parts(before + text + after) == time_parts(text),
{
    lemma_trim_ignores_padding(before, text, after);
}

} // verus!
