//! Scraping of telemetry JSON out of the gateway firmware's log lines.
//!
//! A telemetry line reads `... JSON sent via VCP: {...}\n (file:line)`: the
//! JSON text follows the marker, and the logger may append an escaped newline
//! and a source location after it.
use vstd::prelude::*;
use vstd::string::StrSliceExecFns;

verus! {

/// Number of characters of the marker that precedes the JSON text.
pub const MARKER_LEN: usize = 19;

/// The marker `JSON sent via VCP: `.
pub open spec fn json_marker() -> Seq<char> {
    seq!['J', 'S', 'O', 'N', ' ', 's', 'e', 'n', 't', ' ', 'v', 'i', 'a', ' ', 'V', 'C', 'P', ':', ' ']
}

/// The separator ` (` that opens the logger's source location.
pub open spec fn location_separator() -> Seq<char> {
    seq![' ', '(']
}

/// `p` occurs in `s` at index `i`.
pub open spec fn occurs_at(s: Seq<char>, p: Seq<char>, i: int) -> bool {
    0 <= i && i + p.len() <= s.len() && s.subrange(i, i + p.len()) == p
}

/// Index of the first occurrence of `p` in `s` at or after `from`.
pub open spec fn first_occurrence(s: Seq<char>, p: Seq<char>, from: int) -> Option<int>
    decreases s.len() + 1 - from,
{
    if from < 0 || from + p.len() > s.len() {
        None
    } else if occurs_at(s, p, from) {
        Some(from)
    } else {
        first_occurrence(s, p, from + 1)
    }
}

/// Unicode white space, as `char::is_whitespace` classifies it.
pub open spec fn is_white_space(c: char) -> bool {
    let u = c as u32;
    (9 <= u <= 13) || u == 0x20 || u == 0x85 || u == 0xA0 || u == 0x1680 || (0x2000 <= u
        <= 0x200A) || u == 0x2028 || u == 0x2029 || u == 0x202F || u == 0x205F || u == 0x3000
}

/// `s` without its leading white space.
pub open spec fn trim_start_ws(s: Seq<char>) -> Seq<char>
    decreases s.len(),
{
    if s.len() > 0 && is_white_space(s[0]) {
        trim_start_ws(s.drop_first())
    } else {
        s
    }
}

/// `s` without its trailing white space.
pub open spec fn trim_end_ws(s: Seq<char>) -> Seq<char>
    decreases s.len(),
{
    if s.len() > 0 && is_white_space(s.last()) {
        trim_end_ws(s.drop_last())
    } else {
        s
    }
}

/// `s` without white space at either end.
pub open spec fn trim_ws(s: Seq<char>) -> Seq<char> {
    trim_end_ws(trim_start_ws(s))
}

/// `s` without the escaped newlines (a backslash and an `n`) at its end.
pub open spec fn trim_escaped_newlines(s: Seq<char>) -> Seq<char>
    decreases s.len(),
{
    if s.len() >= 2 && s[s.len() - 2] == '\\' && s[s.len() - 1] == 'n' {
        trim_escaped_newlines(s.subrange(0, s.len() - 2))
    } else {
        s
    }
}

/// `s` without the newline characters at its end.
pub open spec fn trim_newlines(s: Seq<char>) -> Seq<char>
    decreases s.len(),
{
    if s.len() > 0 && s.last() == '\n' {
        trim_newlines(s.drop_last())
    } else {
        s
    }
}

/// The JSON text of a log line: what follows the first marker, up to the
/// first source-location separator, with white space, escaped newlines and
/// newlines taken off its ends. `None` when the line holds no marker.
pub open spec fn json_of_line(line: Seq<char>) -> Option<Seq<char>> {
    match first_occurrence(line, json_marker(), 0) {
        None => None,
        Some(i) => {
            let rest = line.subrange(i + MARKER_LEN, line.len() as int);
            let body = match first_occurrence(rest, location_separator(), 0) {
                Some(j) => rest.subrange(0, j),
                None => rest,
            };
            Some(trim_ws(trim_newlines(trim_escaped_newlines(trim_ws(body)))))
        },
    }
}

proof fn lemma_first_occurrence_found(s: Seq<char>, p: Seq<char>, from: int)
    ensures
        first_occurrence(s, p, from) matches Some(i) ==> from <= i && occurs_at(s, p, i),
    decreases s.len() + 1 - from,
{
    if !(from < 0 || from + p.len() > s.len()) && !occurs_at(s, p, from) {
        lemma_first_occurrence_found(s, p, from + 1);
    }
}

fn is_white_space_char(c: char) -> (r: bool)
    ensures
        r == is_white_space(c),
{
    let u = c as u32;
    (9 <= u && u <= 13) || u == 0x20 || u == 0x85 || u == 0xA0 || u == 0x1680 || (0x2000 <= u
        && u <= 0x200A) || u == 0x2028 || u == 0x2029 || u == 0x202F || u == 0x205F || u == 0x3000
}

/// Whether `pat` occurs in `line` at character index `i`.
fn occurs_at_exec(line: &str, n: usize, pat: &[char], i: usize) -> (r: bool)
    requires
        n == line@.len(),
        i + pat@.len() <= n,
    ensures
        r == occurs_at(line@, pat@, i as int),
{
    let mut k: usize = 0;
    while k < pat.len()
        invariant
            n == line@.len(),
            i + pat@.len() <= n,
            k <= pat@.len(),
            forall|j: int| 0 <= j < k ==> line@[i + j] == pat@[j],
        decreases pat@.len() - k,
    {
        if line.get_char(i + k) != pat[k] {
            assert(line@.subrange(i as int, i + pat@.len())[k as int] != pat@[k as int]);
            return false;
        }
        k = k + 1;
    }
    assert(line@.subrange(i as int, i + pat@.len()) =~= pat@);
    true
}

/// First index at or after `from` where `pat` occurs in `line`, counted in
/// characters.
fn find_from(line: &str, n: usize, pat: &[char], from: usize) -> (r: Option<usize>)
    requires
        n == line@.len(),
        from <= n,
    ensures
        r matches Some(i) ==> first_occurrence(line@, pat@, from as int) == Some(i as int),
        r is None ==> first_occurrence(line@, pat@, from as int) is None,
{
    let mut i: usize = from;
    while pat.len() <= n - i
        invariant
            n == line@.len(),
            from <= i <= n,
            first_occurrence(line@, pat@, from as int) == first_occurrence(line@, pat@, i as int),
        decreases n + 1 - i,
    {
        if occurs_at_exec(line, n, pat, i) {
            return Some(i);
        }
        assert(pat@.len() > 0) by {
            if pat@.len() == 0 {
                assert(line@.subrange(i as int, i as int) =~= pat@);
            }
        }
        i = i + 1;
    }
    None
}

/// Extracts the JSON text that a telemetry log line carries.
///
/// Returns `None` when the line holds no `JSON sent via VCP: ` marker.
/// Otherwise the text after the first marker is cut before the first ` (`,
/// and white space, escaped `\n` sequences and newline characters are taken
/// off its end (white space off its start too).
pub fn extract_json_from_log_line(line: &str) -> (r: Option<String>)
    ensures
        r matches Some(s) ==> json_of_line(line@) == Some(s@),
        r is None ==> json_of_line(line@) is None,
{
    let n = line.unicode_len();
    let marker: [char; MARKER_LEN] = [
        'J', 'S', 'O', 'N', ' ', 's', 'e', 'n', 't', ' ', 'v', 'i', 'a', ' ', 'V', 'C', 'P', ':', ' ',
    ];
    assert(marker@ =~= json_marker());
    let start = match find_from(line, n, marker.as_slice(), 0) {
        Some(i) => i,
        None => return None,
    };
    proof {
        lemma_first_occurrence_found(line@, json_marker(), 0);
    }
    let ghost s = line@;
    let mut lo: usize = start + MARKER_LEN;
    let mut hi: usize = n;
    let ghost rest = s.subrange(lo as int, n as int);

    // Cut before the first location separator.
    let separator: [char; 2] = [' ', '('];
    assert(separator@ =~= location_separator());
    let ghost body = match first_occurrence(rest, location_separator(), 0) {
        Some(j) => rest.subrange(0, j),
        None => rest,
    };
    let mut j: usize = lo;
    let mut found = false;
    while 2 <= n - j && !found
        invariant
            s == line@,
            n == s.len(),
            lo <= j <= n,
            hi == n,
            rest == s.subrange(lo as int, n as int),
            !found ==> first_occurrence(rest, location_separator(), 0) == first_occurrence(
                rest,
                location_separator(),
                j - lo,
            ),
            found ==> j + 2 <= n && first_occurrence(rest, location_separator(), 0) == Some(
                j - lo,
            ),
            separator@ == location_separator(),
        decreases (n + 1 - j) * 2 + if found { 0int } else { 1int },
    {
        if occurs_at_exec(line, n, separator.as_slice(), j) {
            assert(rest.subrange(j - lo, j - lo + 2) =~= s.subrange(j as int, j + 2));
            found = true;
        } else {
            assert(rest.subrange(j - lo, j - lo + 2) =~= s.subrange(j as int, j + 2));
            j = j + 1;
        }
    }
    if found {
        hi = j;
    }
    assert(s.subrange(lo as int, hi as int) =~= body);

    // Trim white space at both ends.
    let ghost lo0 = lo;
    while lo < hi && is_white_space_char(line.get_char(lo))
        invariant
            s == line@,
            hi <= s.len(),
            lo0 <= lo <= hi,
            trim_start_ws(s.subrange(lo0 as int, hi as int)) == trim_start_ws(
                s.subrange(lo as int, hi as int),
            ),
        decreases hi - lo,
    {
        assert(s.subrange(lo as int, hi as int).drop_first() =~= s.subrange(lo + 1, hi as int));
        lo = lo + 1;
    }
    let ghost hi0 = hi;
    while hi > lo && is_white_space_char(line.get_char(hi - 1))
        invariant
            s == line@,
            hi0 <= s.len(),
            lo <= hi <= hi0,
            trim_end_ws(s.subrange(lo as int, hi0 as int)) == trim_end_ws(
                s.subrange(lo as int, hi as int),
            ),
        decreases hi - lo,
    {
        assert(s.subrange(lo as int, hi as int).drop_last() =~= s.subrange(lo as int, hi - 1));
        hi = hi - 1;
    }
    assert(s.subrange(lo as int, hi as int) == trim_ws(body));

    // Drop escaped newlines, then newline characters, at the end.
    let ghost hi1 = hi;
    while hi - lo >= 2 && line.get_char(hi - 2) == '\\' && line.get_char(hi - 1) == 'n'
        invariant
            s == line@,
            hi1 <= s.len(),
            lo <= hi <= hi1,
            trim_escaped_newlines(s.subrange(lo as int, hi1 as int)) == trim_escaped_newlines(
                s.subrange(lo as int, hi as int),
            ),
        decreases hi - lo,
    {
        assert(s.subrange(lo as int, hi as int).subrange(0, hi - 2 - lo) =~= s.subrange(
            lo as int,
            hi - 2,
        ));
        hi = hi - 2;
    }
    let ghost hi2 = hi;
    while hi > lo && line.get_char(hi - 1) == '\n'
        invariant
            s == line@,
            hi2 <= s.len(),
            lo <= hi <= hi2,
            trim_newlines(s.subrange(lo as int, hi2 as int)) == trim_newlines(
                s.subrange(lo as int, hi as int),
            ),
        decreases hi - lo,
    {
        assert(s.subrange(lo as int, hi as int).drop_last() =~= s.subrange(lo as int, hi - 1));
        hi = hi - 1;
    }
    let ghost mid = s.subrange(lo as int, hi as int);

    // Trim white space at both ends once more.
    let ghost lo3 = lo;
    while lo < hi && is_white_space_char(line.get_char(lo))
        invariant
            s == line@,
            hi <= s.len(),
            lo3 <= lo <= hi,
            trim_start_ws(s.subrange(lo3 as int, hi as int)) == trim_start_ws(
                s.subrange(lo as int, hi as int),
            ),
        decreases hi - lo,
    {
        assert(s.subrange(lo as int, hi as int).drop_first() =~= s.subrange(lo + 1, hi as int));
        lo = lo + 1;
    }
    let ghost hi3 = hi;
    while hi > lo && is_white_space_char(line.get_char(hi - 1))
        invariant
            s == line@,
            hi3 <= s.len(),
            lo <= hi <= hi3,
            trim_end_ws(s.subrange(lo as int, hi3 as int)) == trim_end_ws(
                s.subrange(lo as int, hi as int),
            ),
        decreases hi - lo,
    {
        assert(s.subrange(lo as int, hi as int).drop_last() =~= s.subrange(lo as int, hi - 1));
        hi = hi - 1;
    }
    assert(s.subrange(lo as int, hi as int) == trim_ws(mid));
    let text = line.substring_char(lo, hi);
    Some(text.to_owned())
}

} // verus!
