//! Character-level text helpers shared by the extractors: substring search,
//! white space, trimming, line splitting and token splitting, each defined
//! over `Seq<char>` and computed over `Vec<char>`.

use vstd::prelude::*;
use vstd::slice::slice_subrange;
use vstd::std_specs::iter::IteratorSpec;

verus! {

/// The characters of `s`, in order.
pub fn chars_of(s: &str) -> (out: Vec<char>)
    ensures
        out@ == s@,
{
    let mut out: Vec<char> = Vec::new();
    let mut it = s.chars();
    loop
        invariant
            it.obeys_prophetic_iter_laws(),
            it.decrease() is Some,
            out@ + it.remaining() == s@,
        ensures
            out@ == s@,
        decreases it.decrease()->0,
    {
        match it.next() {
            Some(c) => {
                out.push(c);
            },
            None => {
                break;
            },
        }
    }
    out
}

/// Builds a `String` from characters.
///
/// Trusted: calls `String::from_iter`, through `Iterator::collect`, on the
/// slice's iterator. The contract claims that the string holds exactly the
/// characters of the slice, in order, which is what collecting `char`s into
/// a `String` is documented to do.
#[verifier::external_body]
pub(crate) fn text_from(chars: &[char]) -> (out: String)
    ensures
        out@ == chars@,
{
    chars.iter().collect()
}

/// The text `chars[from..to]`.
pub fn text_of(chars: &Vec<char>, from: usize, to: usize) -> (out: String)
    requires
        from <= to <= chars.len(),
    ensures
        out@ == chars@.subrange(from as int, to as int),
{
    text_from(slice_subrange(chars.as_slice(), from, to))
}

/// Whether two texts hold the same characters, by walking both at once.
pub fn same_text(a: &str, b: &str) -> (same: bool)
    ensures
        same == (a@ == b@),
{
    let mut left = a.chars();
    let mut right = b.chars();
    let ghost mut done: Seq<char> = Seq::empty();
    proof {
        assert(done + left.remaining() =~= a@);
        assert(done + right.remaining() =~= b@);
    }
    loop
        invariant
            left.obeys_prophetic_iter_laws(),
            right.obeys_prophetic_iter_laws(),
            left.decrease() is Some,
            done + left.remaining() == a@,
            done + right.remaining() == b@,
        decreases left.decrease()->0,
    {
        let ghost rest_left = left.remaining();
        let ghost rest_right = right.remaining();
        let x = left.next();
        let y = right.next();
        match (x, y) {
            (Some(c), Some(d)) => {
                if c != d {
                    proof {
                        assert(a@[done.len() as int] == rest_left[0]);
                        assert(b@[done.len() as int] == rest_right[0]);
                    }
                    return false;
                }
                proof {
                    assert(done.push(c) + left.remaining() =~= done + rest_left);
                    assert(done.push(c) + right.remaining() =~= done + rest_right);
                    done = done.push(c);
                }
            },
            (None, None) => {
                proof {
                    assert(done + rest_left =~= done);
                    assert(done + rest_right =~= done);
                }
                return true;
            },
            _ => {
                proof {
                    assert(a@.len() == done.len() + rest_left.len());
                    assert(b@.len() == done.len() + rest_right.len());
                }
                return false;
            },
        }
    }
}

/// `needle` stands in `hay` starting at position `at`.
pub open spec fn occurs_at(hay: Seq<char>, needle: Seq<char>, at: int) -> bool {
    &&& 0 <= at
    &&& at + needle.len() <= hay.len()
    &&& hay.subrange(at, at + needle.len()) == needle
}

/// `needle` is a contiguous part of `hay`. The empty text is part of every text.
pub open spec fn occurs_in(hay: Seq<char>, needle: Seq<char>) -> bool {
    exists|at: int| occurs_at(hay, needle, at)
}

/// Whether `needle` starts at `at` in `hay`, by comparing character by character.
fn matches_at(hay: &Vec<char>, needle: &Vec<char>, at: usize) -> (found: bool)
    requires
        at + needle.len() <= hay.len(),
    ensures
        found == occurs_at(hay@, needle@, at as int),
{
    let mut k: usize = 0;
    while k < needle.len()
        invariant
            k <= needle.len(),
            at + needle.len() <= hay.len(),
            forall|j: int| 0 <= j < k ==> hay@[at + j] == needle@[j],
        decreases needle.len() - k,
    {
        if hay[at + k] != needle[k] {
            proof {
                let part = hay@.subrange(at as int, at + needle.len());
                assert(part[k as int] == hay@[at + k]);
            }
            return false;
        }
        k += 1;
    }
    proof {
        assert(hay@.subrange(at as int, at + needle.len()) =~= needle@);
    }
    true
}

/// Literal substring search.
pub fn contains(hay: &Vec<char>, needle: &Vec<char>) -> (found: bool)
    ensures
        found == occurs_in(hay@, needle@),
{
    if needle.len() > hay.len() {
        return false;
    }
    let last: usize = hay.len() - needle.len();
    let mut at: usize = 0;
    loop
        invariant
            last == hay.len() - needle.len(),
            at <= last,
            forall|j: int| 0 <= j < at ==> !occurs_at(hay@, needle@, j),
        decreases last - at,
    {
        if matches_at(hay, needle, at) {
            return true;
        }
        if at == last {
            return false;
        }
        at += 1;
    }
}

/// The characters with the Unicode property `White_Space`.
pub open spec fn is_space(c: char) -> bool {
    ||| '\u{9}' <= c <= '\u{d}'
    ||| c == ' '
    ||| c == '\u{85}'
    ||| c == '\u{a0}'
    ||| c == '\u{1680}'
    ||| '\u{2000}' <= c <= '\u{200a}'
    ||| c == '\u{2028}'
    ||| c == '\u{2029}'
    ||| c == '\u{202f}'
    ||| c == '\u{205f}'
    ||| c == '\u{3000}'
}

/// Whether `c` is white space.
pub fn is_whitespace(c: char) -> (space: bool)
    ensures
        space == is_space(c),
{
    ('\u{9}' <= c && c <= '\u{d}') || c == ' ' || c == '\u{85}' || c == '\u{a0}' || c
        == '\u{1680}' || ('\u{2000}' <= c && c <= '\u{200a}') || c == '\u{2028}' || c
        == '\u{2029}' || c == '\u{202f}' || c == '\u{205f}' || c == '\u{3000}'
}

/// The first position at or after `from`, and before `to`, that holds white
/// space if `space` is set, or that holds none if it is not; `to` if there is
/// no such position.
pub open spec fn scan(s: Seq<char>, from: int, to: int, space: bool) -> int
    decreases to - from,
{
    if from >= to || to > s.len() || from < 0 {
        to
    } else if is_space(s[from]) == space {
        from
    } else {
        scan(s, from + 1, to, space)
    }
}

/// The end of `s[from..to]` once trailing white space is taken off.
pub open spec fn scan_back(s: Seq<char>, from: int, to: int) -> int
    decreases to - from,
{
    if from >= to || to > s.len() || from < 0 {
        from
    } else if !is_space(s[to - 1]) {
        to
    } else {
        scan_back(s, from, to - 1)
    }
}

/// `s` without leading and trailing white space.
pub open spec fn trim(s: Seq<char>) -> Seq<char> {
    let start = scan(s, 0, s.len() as int, false);
    s.subrange(start, scan_back(s, start, s.len() as int))
}

/// A scan stays inside its bounds.
pub proof fn lemma_scan_bounds(s: Seq<char>, from: int, to: int, space: bool)
    requires
        0 <= from <= to <= s.len(),
    ensures
        from <= scan(s, from, to, space) <= to,
    decreases to - from,
{
    if from < to && is_space(s[from]) != space {
        lemma_scan_bounds(s, from + 1, to, space);
    }
}

/// A backward scan stays inside its bounds.
pub proof fn lemma_scan_back_bounds(s: Seq<char>, from: int, to: int)
    requires
        0 <= from <= to <= s.len(),
    ensures
        from <= scan_back(s, from, to) <= to,
    decreases to - from,
{
    if from < to && is_space(s[to - 1]) {
        lemma_scan_back_bounds(s, from, to - 1);
    }
}

/// Scanning a part of a text finds what scanning the text inside the part's
/// bounds finds.
pub proof fn lemma_scan_part(s: Seq<char>, a: int, b: int, from: int, space: bool)
    requires
        0 <= a <= from <= b <= s.len(),
    ensures
        scan(s.subrange(a, b), from - a, b - a, space) + a == scan(s, from, b, space),
    decreases b - from,
{
    if from < b {
        assert(s.subrange(a, b)[from - a] == s[from]);
        if is_space(s[from]) != space {
            lemma_scan_part(s, a, b, from + 1, space);
        }
    }
}

/// The same for scanning backwards.
pub proof fn lemma_scan_back_part(s: Seq<char>, a: int, b: int, from: int, to: int)
    requires
        0 <= a <= from <= to <= b <= s.len(),
    ensures
        scan_back(s.subrange(a, b), from - a, to - a) + a == scan_back(s, from, to),
    decreases to - from,
{
    if from < to {
        assert(s.subrange(a, b)[to - 1 - a] == s[to - 1]);
        if is_space(s[to - 1]) {
            lemma_scan_back_part(s, a, b, from, to - 1);
        }
    }
}

/// Trimming the part `s[a..b]` gives the part of `s` between the first
/// character of `s[a..b]` that is no white space and the last one.
pub proof fn lemma_trim_span(s: Seq<char>, a: int, b: int)
    requires
        0 <= a <= b <= s.len(),
    ensures
        trim(s.subrange(a, b)) == s.subrange(
            scan(s, a, b, false),
            scan_back(s, scan(s, a, b, false), b),
        ),
{
    let part = s.subrange(a, b);
    lemma_scan_part(s, a, b, a, false);
    lemma_scan_bounds(s, a, b, false);
    let start = scan(s, a, b, false);
    lemma_scan_back_part(s, a, b, start, b);
    lemma_scan_back_bounds(s, start, b);
    assert(part.subrange(start - a, scan_back(s, start, b) - a) =~= s.subrange(
        start,
        scan_back(s, start, b),
    ));
}

/// Computes `scan`.
pub fn find(chars: &Vec<char>, from: usize, to: usize, space: bool) -> (at: usize)
    requires
        from <= to <= chars.len(),
    ensures
        at == scan(chars@, from as int, to as int, space),
        from <= at <= to,
{
    let mut at: usize = from;
    while at < to
        invariant
            from <= at <= to <= chars.len(),
            scan(chars@, from as int, to as int, space) == scan(
                chars@,
                at as int,
                to as int,
                space,
            ),
        decreases to - at,
    {
        if is_whitespace(chars[at]) == space {
            return at;
        }
        at += 1;
    }
    at
}

/// Computes `scan_back`.
pub fn find_back(chars: &Vec<char>, from: usize, to: usize) -> (end: usize)
    requires
        from <= to <= chars.len(),
    ensures
        end == scan_back(chars@, from as int, to as int),
        from <= end <= to,
{
    let mut end: usize = to;
    while end > from
        invariant
            from <= end <= to <= chars.len(),
            scan_back(chars@, from as int, to as int) == scan_back(
                chars@,
                from as int,
                end as int,
            ),
        decreases end - from,
    {
        if !is_whitespace(chars[end - 1]) {
            return end;
        }
        end -= 1;
    }
    end
}

/// The first white-space-delimited token of `s` that starts at or after
/// position `from`, if there is one.
pub open spec fn token_after(s: Seq<char>, from: int) -> Option<Seq<char>> {
    let start = scan(s, from, s.len() as int, false);
    if start >= s.len() {
        None
    } else {
        Some(s.subrange(start, scan(s, start, s.len() as int, true)))
    }
}

/// Computes `token_after`.
pub fn next_token(chars: &Vec<char>, from: usize) -> (token: Option<String>)
    ensures
        match token {
            Some(t) => token_after(chars@, from as int) == Some(t@),
            None => token_after(chars@, from as int) is None,
        },
{
    if from >= chars.len() {
        return None;
    }
    let start = find(chars, from, chars.len(), false);
    if start >= chars.len() {
        return None;
    }
    let end = find(chars, start, chars.len(), true);
    Some(text_of(chars, start, end))
}

/// A copy of `chars[from..to]`.
pub fn part(chars: &Vec<char>, from: usize, to: usize) -> (out: Vec<char>)
    requires
        from <= to <= chars.len(),
    ensures
        out@ == chars@.subrange(from as int, to as int),
{
    let mut out: Vec<char> = Vec::new();
    let mut at: usize = from;
    while at < to
        invariant
            from <= at <= to <= chars.len(),
            out@ == chars@.subrange(from as int, at as int),
        decreases to - at,
    {
        out.push(chars[at]);
        proof {
            assert(out@ =~= chars@.subrange(from as int, at + 1));
        }
        at += 1;
    }
    out
}

/// The first line break at or after `from`, or the end of text.
pub open spec fn line_end(s: Seq<char>, from: int) -> int
    decreases s.len() - from,
{
    if from < 0 || from >= s.len() {
        s.len() as int
    } else if s[from] == '\n' {
        from
    } else {
        line_end(s, from + 1)
    }
}

/// The bounds of the lines of `s` from position `from` on. A line ends at a
/// line feed or at the end of text; a carriage return directly before the line
/// feed belongs to the line break; text that ends in a line break has no
/// further, empty line after it.
pub open spec fn line_spans(s: Seq<char>, from: int) -> Seq<(int, int)>
    decreases s.len() - from,
{
    if from < 0 || from >= s.len() {
        Seq::empty()
    } else {
        proof {
            lemma_line_end_bounds(s, from);
        }
        let end = line_end(s, from);
        let stop = if end < s.len() && from < end && s[end - 1] == '\r' {
            end - 1
        } else {
            end
        };
        if end < s.len() {
            seq![(from, stop)] + line_spans(s, end + 1)
        } else {
            seq![(from, stop)]
        }
    }
}

/// The lines of `s`.
pub open spec fn lines(s: Seq<char>) -> Seq<Seq<char>> {
    line_spans(s, 0).map_values(|span: (int, int)| s.subrange(span.0, span.1))
}

/// A line ends at or after the position it is looked for from.
pub proof fn lemma_line_end_bounds(s: Seq<char>, from: int)
    requires
        0 <= from <= s.len(),
    ensures
        from <= line_end(s, from) <= s.len(),
    decreases s.len() - from,
{
    if from < s.len() && s[from] != '\n' {
        lemma_line_end_bounds(s, from + 1);
    }
}

/// Computes `line_end`.
pub fn find_line_end(chars: &Vec<char>, from: usize) -> (end: usize)
    requires
        from <= chars.len(),
    ensures
        end == line_end(chars@, from as int),
        from <= end <= chars.len(),
{
    let mut end: usize = from;
    while end < chars.len()
        invariant
            from <= end <= chars.len(),
            line_end(chars@, from as int) == line_end(chars@, end as int),
        decreases chars.len() - end,
    {
        if chars[end] == '\n' {
            return end;
        }
        end += 1;
    }
    end
}

/// The bounds of the line that starts at `from`, and where the next line starts.
pub fn next_line(chars: &Vec<char>, from: usize) -> (out: (usize, usize, usize))
    requires
        from < chars.len(),
    ensures
        from <= out.0 <= out.1 <= chars.len(),
        from < out.2 <= chars.len(),
        line_spans(chars@, from as int) == seq![(out.0 as int, out.1 as int)] + line_spans(
            chars@,
            out.2 as int,
        ),
{
    let end = find_line_end(chars, from);
    let stop = if end < chars.len() && from < end && chars[end - 1] == '\r' {
        end - 1
    } else {
        end
    };
    let next = if end < chars.len() {
        end + 1
    } else {
        end
    };
    (from, stop, next)
}

/// The texts of a list of strings.
pub open spec fn texts(list: Seq<String>) -> Seq<Seq<char>> {
    list.map_values(|text: String| text@)
}

/// Whether `text` is in the list.
pub fn holds_text(list: &Vec<String>, text: &str) -> (found: bool)
    ensures
        found == texts(list@).contains(text@),
{
    let mut i: usize = 0;
    while i < list.len()
        invariant
            i <= list.len(),
            forall|j: int| 0 <= j < i ==> texts(list@)[j] != text@,
        decreases list.len() - i,
    {
        if same_text(list[i].as_str(), text) {
            assert(texts(list@)[i as int] == text@);
            return true;
        }
        i += 1;
    }
    false
}

/// `list` with `item` added at the end, unless it is there already.
pub open spec fn with_item(list: Seq<Seq<char>>, item: Seq<char>) -> Seq<Seq<char>> {
    if list.contains(item) {
        list
    } else {
        list.push(item)
    }
}

} // verus!
