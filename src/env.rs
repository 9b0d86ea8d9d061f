//! Reading a `.env` file: `KEY=value` lines, with blank lines and `#`
//! comments skipped.

use vstd::prelude::*;
use crate::jj_status::{index_from, index_of_char, trim, trim_str};

verus! {

/// The variable a line sets, if any: the trimmed text before the first `=`
/// and the trimmed text after it, for a line that is neither blank nor a
/// comment once trimmed.
pub open spec fn env_entry(line: Seq<char>) -> Option<(Seq<char>, Seq<char>)> {
    let t = trim(line);
    if t.len() == 0 || t[0] == '#' {
        None
    } else {
        let e = index_from(t, '=', 0);
        if e < t.len() {
            Some((trim(t.subrange(0, e)), trim(t.subrange(e + 1, t.len() as int))))
        } else {
            None
        }
    }
}

pub open spec fn entry_seq(e: Option<(Seq<char>, Seq<char>)>) -> Seq<(Seq<char>, Seq<char>)> {
    match e {
        Some(kv) => seq![kv],
        None => Seq::empty(),
    }
}

/// The variables set by the lines (ending at `'\n'`) from position `i` on,
/// within the line that starts at `line_start`, in order.
pub open spec fn env_entries(s: Seq<char>, i: int, line_start: int) -> Seq<(Seq<char>, Seq<char>)>
    decreases s.len() - i,
{
    if i >= s.len() {
        entry_seq(env_entry(s.subrange(line_start, s.len() as int)))
    } else if s[i] == '\n' {
        entry_seq(env_entry(s.subrange(line_start, i))) + env_entries(s, i + 1, i + 1)
    } else {
        env_entries(s, i + 1, line_start)
    }
}

fn line_entry(line: &str) -> (r: Option<(String, String)>)
    ensures
        match (r, env_entry(line@)) {
            (Some(kv), Some(e)) => kv.0@ == e.0 && kv.1@ == e.1,
            (None, None) => true,
            _ => false,
        },
{
    let t = trim_str(line);
    let n = t.unicode_len();
    if n == 0 || t.get_char(0) == '#' {
        return None;
    }
    let e = index_of_char(t, n, '=', 0);
    if e < n {
        let key = trim_str(t.substring_char(0, e));
        let value = trim_str(t.substring_char(e + 1, n));
        Some((key.to_owned(), value.to_owned()))
    } else {
        None
    }
}

/// The variables a `.env` file sets, line by line, in order.
pub fn parse_env(content: &str) -> (r: Vec<(String, String)>)
    ensures
        r@.map_values(|kv: (String, String)| (kv.0@, kv.1@)) == env_entries(content@, 0, 0),
{
    let n = content.unicode_len();
    let mut out: Vec<(String, String)> = Vec::new();
    let mut i: usize = 0;
    let mut line_start: usize = 0;
    while i < n
        invariant
            n == content@.len(),
            line_start <= i <= n,
            out@.map_values(|kv: (String, String)| (kv.0@, kv.1@)) + env_entries(
                content@,
                i as int,
                line_start as int,
            ) == env_entries(content@, 0, 0),
        decreases n - i,
    {
        if content.get_char(i) == '\n' {
            let ghost before = out@.map_values(|kv: (String, String)| (kv.0@, kv.1@));
            let line = content.substring_char(line_start, i);
            match line_entry(line) {
                Some(kv) => {
                    out.push(kv);
                },
                None => {},
            }
            assert(out@.map_values(|kv: (String, String)| (kv.0@, kv.1@)) =~= before + entry_seq(
                env_entry(content@.subrange(line_start as int, i as int)),
            ));
            line_start = i + 1;
        }
        i = i + 1;
    }
    let ghost before = out@.map_values(|kv: (String, String)| (kv.0@, kv.1@));
    let line = content.substring_char(line_start, n);
    match line_entry(line) {
        Some(kv) => {
            out.push(kv);
        },
        None => {},
    }
    assert(out@.map_values(|kv: (String, String)| (kv.0@, kv.1@)) =~= before + entry_seq(
        env_entry(content@.subrange(line_start as int, n as int)),
    ));
    out
}

} // verus!
