//! Reading the working-copy line out of a `status` report.

use vstd::prelude::*;
use crate::error::AetherError;

verus! {

/// What a `status` report says of the working copy.
pub struct JjStatus {
    pub working_copy: Option<String>,
}

/// The text that marks the working-copy line.
pub open spec fn marker() -> Seq<char> {
    seq!['W', 'o', 'r', 'k', 'i', 'n', 'g', ' ', 'c', 'o', 'p', 'y']
}

/// Unicode white space, as `char::is_whitespace` defines it.
pub open spec fn is_white(c: char) -> bool {
    let u = c as u32;
    (9 <= u && u <= 13) || u == 32 || u == 0x85 || u == 0xA0 || u == 0x1680 || (0x2000 <= u && u
        <= 0x200A) || u == 0x2028 || u == 0x2029 || u == 0x202F || u == 0x205F || u == 0x3000
}

pub open spec fn trim_start(s: Seq<char>) -> Seq<char>
    decreases s.len(),
{
    if s.len() > 0 && is_white(s[0]) {
        trim_start(s.drop_first())
    } else {
        s
    }
}

pub open spec fn trim_end(s: Seq<char>) -> Seq<char>
    decreases s.len(),
{
    if s.len() > 0 && is_white(s.last()) {
        trim_end(s.drop_last())
    } else {
        s
    }
}

/// `s` without leading and trailing white space.
pub open spec fn trim(s: Seq<char>) -> Seq<char> {
    trim_end(trim_start(s))
}

/// `p` occurs in `s`.
pub open spec fn contains(s: Seq<char>, p: Seq<char>) -> bool {
    exists|i: int| 0 <= i && i + p.len() <= s.len() && #[trigger] s.subrange(i, i + p.len()) == p
}

/// The first index at or after `i` that holds `c`, or the length of `s`.
pub open spec fn index_from(s: Seq<char>, c: char, i: int) -> int
    decreases s.len() - i,
{
    if i >= s.len() {
        s.len() as int
    } else if s[i] == c {
        i
    } else {
        index_from(s, c, i + 1)
    }
}

/// The first line (lines end at `'\n'`) at or after position `i`, within the
/// line that starts at `line_start`, that contains the marker.
pub open spec fn marked_line(s: Seq<char>, i: int, line_start: int) -> Option<Seq<char>>
    decreases s.len() - i,
{
    if i >= s.len() {
        if contains(s.subrange(line_start, s.len() as int), marker()) {
            Some(s.subrange(line_start, s.len() as int))
        } else {
            None
        }
    } else if s[i] == '\n' {
        if contains(s.subrange(line_start, i), marker()) {
            Some(s.subrange(line_start, i))
        } else {
            marked_line(s, i + 1, i + 1)
        }
    } else {
        marked_line(s, i + 1, line_start)
    }
}

/// The text between the first and the second `':'` of a line (or its end).
pub open spec fn second_field(line: Seq<char>) -> Option<Seq<char>> {
    let c1 = index_from(line, ':', 0);
    if c1 < line.len() {
        Some(line.subrange(c1 + 1, index_from(line, ':', c1 + 1)))
    } else {
        None
    }
}

/// The working copy named by a report: the second `':'`-separated field,
/// trimmed, of its first line that contains the marker.
pub open spec fn working_copy_of(report: Seq<char>) -> Option<Seq<char>> {
    match marked_line(report, 0, 0) {
        Some(line) => match second_field(line) {
            Some(f) => Some(trim(f)),
            None => None,
        },
        None => None,
    }
}

fn is_white_char(c: char) -> (r: bool)
    ensures
        r == is_white(c),
{
    let u = c as u32;
    (9 <= u && u <= 13) || u == 32 || u == 0x85 || u == 0xA0 || u == 0x1680 || (0x2000 <= u && u
        <= 0x200A) || u == 0x2028 || u == 0x2029 || u == 0x202F || u == 0x205F || u == 0x3000
}

pub(crate) fn index_of_char(s: &str, n: usize, c: char, from: usize) -> (r: usize)
    requires
        n == s@.len(),
        from <= n,
    ensures
        r as int == index_from(s@, c, from as int),
        from <= r <= n,
{
    let mut i = from;
    while i < n
        invariant
            n == s@.len(),
            from <= i <= n,
            index_from(s@, c, from as int) == index_from(s@, c, i as int),
        decreases n - i,
    {
        if s.get_char(i) == c {
            return i;
        }
        i = i + 1;
    }
    i
}

fn has_marker(s: &str, n: usize) -> (r: bool)
    requires
        n == s@.len(),
    ensures
        r == contains(s@, marker()),
{
    let m: Vec<char> = vec!['W', 'o', 'r', 'k', 'i', 'n', 'g', ' ', 'c', 'o', 'p', 'y'];
    assert(m@ =~= marker());
    if n < 12 {
        return false;
    }
    let mut i: usize = 0;
    while i <= n - 12
        invariant
            n == s@.len(),
            m@ == marker(),
            n >= 12,
            i <= n - 12 + 1,
            forall|k: int| 0 <= k < i ==> #[trigger] s@.subrange(k, k + 12) != marker(),
        decreases n - i,
    {
        let mut t: usize = 0;
        let mut same = true;
        while t < 12
            invariant
                n == s@.len(),
                m@ == marker(),
                i + 12 <= n,
                t <= 12,
                same == (forall|u: int| 0 <= u < t ==> s@[i + u] == m@[u]),
            decreases 12 - t,
        {
            if s.get_char(i + t) != m[t] {
                same = false;
            }
            t = t + 1;
        }
        if same {
            assert(s@.subrange(i as int, i + 12) =~= marker());
            return true;
        }
        assert(s@.subrange(i as int, i + 12) != marker()) by {
            let w = choose|u: int| 0 <= u < 12 && s@[i + u] != m@[u];
            assert(s@.subrange(i as int, i + 12)[w] != marker()[w]);
        }
        i = i + 1;
    }
    assert forall|k: int| 0 <= k && k + marker().len() <= s@.len() implies #[trigger] s@.subrange(
        k,
        k + marker().len(),
    ) != marker() by {
        assert(k < i);
    }
    false
}

pub(crate) fn trim_str(s: &str) -> (r: &str)
    ensures
        r@ == trim(s@),
{
    let n = s.unicode_len();
    let mut a: usize = 0;
    assert(s@.subrange(0, n as int) =~= s@);
    while a < n && is_white_char(s.get_char(a))
        invariant
            n == s@.len(),
            a <= n,
            trim_start(s@) == trim_start(s@.subrange(a as int, n as int)),
        decreases n - a,
    {
        assert(s@.subrange(a as int, n as int).drop_first() =~= s@.subrange(a + 1, n as int));
        a = a + 1;
    }
    assert(trim_start(s@) == s@.subrange(a as int, n as int));
    let mut b: usize = n;
    while b > a && is_white_char(s.get_char(b - 1))
        invariant
            n == s@.len(),
            a <= b <= n,
            trim(s@) == trim_end(s@.subrange(a as int, b as int)),
        decreases b,
    {
        assert(s@.subrange(a as int, b as int).drop_last() =~= s@.subrange(a as int, b - 1));
        b = b - 1;
    }
    s.substring_char(a, b)
}

/// Reads the working copy out of a `status` report.
pub fn parse_status(output: &str) -> (r: Result<JjStatus, AetherError>)
    ensures
        r matches Ok(st) && match (st.working_copy, working_copy_of(output@)) {
            (Some(w), Some(v)) => w@ == v,
            (None, None) => true,
            _ => false,
        },
{
    let n = output.unicode_len();
    let mut i: usize = 0;
    let mut line_start: usize = 0;
    let mut found = false;
    while i < n
        invariant_except_break
            !found,
        invariant
            n == output@.len(),
            line_start <= i <= n,
            marked_line(output@, 0, 0) == marked_line(output@, i as int, line_start as int),
        ensures
            found ==> i < n && marked_line(output@, 0, 0) == Some(
                output@.subrange(line_start as int, i as int),
            ),
            !found ==> i == n && marked_line(output@, 0, 0) == marked_line(
                output@,
                i as int,
                line_start as int,
            ),
        decreases n - i,
    {
        if output.get_char(i) == '\n' {
            let line = output.substring_char(line_start, i);
            if has_marker(line, i - line_start) {
                found = true;
                break;
            }
            line_start = i + 1;
        }
        i = i + 1;
    }
    let mut a = line_start;
    let mut b = i;
    if !found {
        let line = output.substring_char(line_start, n);
        if has_marker(line, n - line_start) {
            found = true;
            b = n;
        }
    }
    assert(!found ==> marked_line(output@, 0, 0) is None);
    assert(found ==> a <= b <= n && marked_line(output@, 0, 0) == Some(
        output@.subrange(a as int, b as int),
    ));
    let working_copy = if !found {
        None
    } else {
        let line = output.substring_char(a, b);
        let len = b - a;
        let c1 = index_of_char(line, len, ':', 0);
        if c1 < len {
            let c2 = index_of_char(line, len, ':', c1 + 1);
            let field = line.substring_char(c1 + 1, c2);
            let t = trim_str(field);
            assert(second_field(line@) == Some(field@));
            Some(t.to_owned())
        } else {
            None
        }
    };
    Ok(JjStatus { working_copy })
}

} // verus!
