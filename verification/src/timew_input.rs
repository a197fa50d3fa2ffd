//! The input handed to the wizard: a settings header and the interval list.
//!
//! The surrounding program reads the raw stream; this module holds the
//! parsed form and the line-level logic of the header: a block of
//! `key: value` lines ended by a blank line.

use vstd::prelude::*;

use crate::tags::trim_str;
use crate::tags::trimmed;
use crate::tw_entry::TWEntry;

verus! {

/// The wizard's input: the settings from the header block, in order of
/// appearance, and the intervals to assign.
#[derive(Debug)]
pub struct TimewInput {
    pub settings: Vec<(String, String)>,
    pub data: Vec<TWEntry>,
}

/// A header line is blank when it holds nothing but spaces.
pub open spec fn is_blank_line(s: Seq<char>) -> bool {
    forall|i: int| 0 <= i < s.len() ==> s[i] == ' '
}

/// Decide whether a header line ends the settings block.
pub fn blank_line(s: &str) -> (b: bool)
    ensures
        b == is_blank_line(s@),
{
    let n = s.unicode_len();
    let mut i: usize = 0;
    while i < n
        invariant
            i <= n,
            n == s@.len(),
            forall|j: int| 0 <= j < i ==> s@[j] == ' ',
        decreases n - i,
    {
        if s.get_char(i) != ' ' {
            return false;
        }
        i += 1;
    }
    true
}

/// Characters before the first colon, the whole line when it has none.
pub open spec fn key_len(s: Seq<char>) -> int
    decreases s.len(),
{
    if s.len() == 0 {
        0
    } else if s[0] == ':' {
        0
    } else {
        1 + key_len(s.drop_first())
    }
}

/// A setting line's key: everything before the first colon.
pub open spec fn setting_key(s: Seq<char>) -> Seq<char> {
    s.take(key_len(s))
}

/// A setting line's value: the segment between the first and second colon
/// (to the end of the line when there is no second colon), trimmed; empty
/// when the line has no colon.
pub open spec fn setting_value(s: Seq<char>) -> Seq<char> {
    if key_len(s) == s.len() {
        Seq::empty()
    } else {
        let rest = s.subrange(key_len(s) + 1, s.len() as int);
        trimmed(rest.take(key_len(rest)))
    }
}

proof fn lemma_key_len_idx(s: Seq<char>, k: int)
    requires
        0 <= k <= s.len(),
        forall|i: int| 0 <= i < k ==> s[i] != ':',
        k == s.len() || s[k] == ':',
    ensures
        key_len(s) == k,
    decreases k,
{
    if k == 0 {
    } else {
        lemma_key_len_idx(s.drop_first(), k - 1);
    }
}

fn colon_from(s: &str, from: usize) -> (c: usize)
    requires
        from <= s@.len(),
    ensures
        from <= c <= s@.len(),
        forall|i: int| from <= i < c ==> s@[i] != ':',
        c == s@.len() || s@[c as int] == ':',
{
    let n = s.unicode_len();
    let mut i: usize = from;
    while i < n
        invariant
            from <= i <= n,
            n == s@.len(),
            forall|j: int| from <= j < i ==> s@[j] != ':',
        decreases n - i,
    {
        if s.get_char(i) == ':' {
            return i;
        }
        i += 1;
    }
    n
}

/// Split one settings line into its key and its trimmed value.
pub fn parse_setting_line(line: &str) -> (kv: (String, String))
    ensures
        kv.0@ == setting_key(line@),
        kv.1@ == setting_value(line@),
{
    let n = line.unicode_len();
    let c1 = colon_from(line, 0);
    proof {
        lemma_key_len_idx(line@, c1 as int);
    }
    let key = line.substring_char(0, c1).to_owned();
    if c1 == n {
        let value = String::new();
        return (key, value);
    }
    let c2 = colon_from(line, c1 + 1);
    let ghost rest = line@.subrange(c1 + 1, n as int);
    proof {
        assert forall|i: int| 0 <= i < c2 - c1 - 1 implies rest[i] != ':' by {
            assert(rest[i] == line@[c1 + 1 + i]);
        }
        if c2 < n {
            assert(rest[c2 - c1 - 1] == line@[c2 as int]);
        }
        lemma_key_len_idx(rest, c2 - c1 - 1);
        assert(rest.take(c2 - c1 - 1) =~= line@.subrange(c1 + 1, c2 as int));
    }
    let raw = line.substring_char(c1 + 1, c2);
    let value = trim_str(raw);
    (key, value)
}

/// Parse the whole settings header, one `key: value` pair per line, in
/// order.
pub fn parse_settings(lines: &Vec<String>) -> (kvs: Vec<(String, String)>)
    ensures
        kvs@.len() == lines@.len(),
        forall|i: int|
            0 <= i < lines@.len() ==> (#[trigger] kvs@[i]).0@ == setting_key(lines@[i]@)
                && kvs@[i].1@ == setting_value(lines@[i]@),
{
    let mut kvs: Vec<(String, String)> = Vec::new();
    let mut i: usize = 0;
    while i < lines.len()
        invariant
            i <= lines@.len(),
            kvs@.len() == i,
            forall|j: int|
                0 <= j < i ==> (#[trigger] kvs@[j]).0@ == setting_key(lines@[j]@)
                    && kvs@[j].1@ == setting_value(lines@[j]@),
        decreases lines@.len() - i,
    {
        let kv = parse_setting_line(lines[i].as_str());
        kvs.push(kv);
        i += 1;
    }
    kvs
}

} // verus!
