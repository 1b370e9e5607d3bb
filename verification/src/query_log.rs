//! Queries as a log line records them: the text of the query behind the
//! mark `query:`, and in front of the mark, among other things, the hash
//! that the query is known by, written as `query_hash=` and the hash.

use crate::schema_stats::Query;
use crate::text::trim;
use crate::text::trimmed;
use vstd::prelude::*;

verus! {

/// The model of a `Query`.
pub struct QueryModel {
    pub query: Seq<char>,
    pub hash: Seq<char>,
    pub count: int,
}

impl View for Query {
    type V = QueryModel;

    open spec fn view(&self) -> QueryModel {
        QueryModel { query: self.query@, hash: self.hash@, count: self.count as int }
    }
}

/// The query that an optional query holds, if any.
pub open spec fn optional_query(query: Option<Query>) -> Option<QueryModel> {
    match query {
        Some(q) => Some(q@),
        None => None,
    }
}

/// The mark in front of the text of the query.
pub open spec fn query_mark() -> Seq<char> {
    "query:"@
}

/// The key in front of the hash.
pub open spec fn hash_key() -> Seq<char> {
    "query_hash="@
}

/// Whether `c` can stand in a hash: a small letter of the Latin alphabet or
/// a digit.
pub open spec fn is_hash_char(c: char) -> bool {
    ('a' as u32 <= c as u32 && c as u32 <= 'z' as u32) || ('0' as u32 <= c as u32 && c as u32
        <= '9' as u32)
}

/// Whether `pattern` stands in `s` at the place `at`.
pub open spec fn occurs_at(s: Seq<char>, pattern: Seq<char>, at: int) -> bool {
    0 <= at && at + pattern.len() <= s.len() && s.subrange(at, at + pattern.len()) == pattern
}

/// The first place at or behind `from` where `pattern` stands in `s`.
pub open spec fn find_from(s: Seq<char>, pattern: Seq<char>, from: int) -> Option<int>
    decreases s.len() - from,
{
    if from < 0 || from + pattern.len() > s.len() {
        None
    } else if occurs_at(s, pattern, from) {
        Some(from)
    } else {
        proof {
            if from == s.len() {
                assert(s.subrange(from, from + pattern.len()) =~= pattern);
            }
        }
        find_from(s, pattern, from + 1)
    }
}

/// The first place at or behind `from` where a hash starts in `s`: behind a
/// key that is followed by at least one character of a hash.
pub open spec fn hash_start(s: Seq<char>, from: int) -> Option<int>
    decreases s.len() - from,
{
    if from < 0 || from + hash_key().len() >= s.len() {
        None
    } else if occurs_at(s, hash_key(), from) && is_hash_char(s[from + hash_key().len()]) {
        Some(from + hash_key().len())
    } else {
        hash_start(s, from + 1)
    }
}

/// Where the characters of a hash that start at `from` end.
pub open spec fn hash_end(s: Seq<char>, from: int) -> int
    decreases s.len() - from,
{
    if 0 <= from < s.len() && is_hash_char(s[from]) {
        hash_end(s, from + 1)
    } else {
        from
    }
}

/// The query that a log line records.
///
/// The line is parted at the mark. What stands in front of the first mark
/// holds the hash: the characters of a hash behind the first key that is
/// followed by one. What stands behind the first mark, up to the next mark
/// if there is one, is the text of the query, which is trimmed. A line
/// without a mark, or without a hash in front of it, records no query.
pub open spec fn query_of_log(line: Seq<char>) -> Option<QueryModel> {
    match find_from(line, query_mark(), 0) {
        None => None,
        Some(mark) => {
            let metadata = line.subrange(0, mark);
            let rest = line.subrange(mark + query_mark().len(), line.len() as int);
            let text = match find_from(rest, query_mark(), 0) {
                Some(next) => rest.subrange(0, next),
                None => rest,
            };
            match hash_start(metadata, 0) {
                None => None,
                Some(start) => Some(
                    QueryModel {
                        query: trimmed(text),
                        hash: metadata.subrange(start, hash_end(metadata, start)),
                        count: 0,
                    },
                ),
            }
        },
    }
}

/// The characters of `s`, in order.
fn chars_of(s: &str) -> (chars: Vec<char>)
    ensures
        chars@ == s@,
{
    let n: usize = s.unicode_len();
    let mut chars: Vec<char> = Vec::new();
    let mut i: usize = 0;
    while i < n
        invariant
            n == s@.len(),
            i <= n,
            chars@ == s@.subrange(0, i as int),
        decreases n - i,
    {
        chars.push(s.get_char(i));
        assert(chars@ =~= s@.subrange(0, i + 1));
        i = i + 1;
    }
    assert(s@.subrange(0, n as int) =~= s@);
    chars
}

/// Whether `pattern` stands in the first `end` characters of `s` at the
/// place `at`.
fn matches_at(s: &Vec<char>, end: usize, pattern: &Vec<char>, at: usize) -> (r: bool)
    requires
        end <= s.len(),
    ensures
        r == occurs_at(s@.subrange(0, end as int), pattern@, at as int),
{
    let m: usize = pattern.len();
    if at > end || m > end - at {
        return false;
    }
    let ghost window = s@.subrange(0, end as int);
    let mut k: usize = 0;
    while k < m
        invariant
            m == pattern.len(),
            end <= s.len(),
            at + m <= end,
            k <= m,
            window == s@.subrange(0, end as int),
            forall|j: int| 0 <= j < k ==> window[at + j] == pattern[j],
        decreases m - k,
    {
        if s[at + k] != pattern[k] {
            proof {
                if occurs_at(window, pattern@, at as int) {
                    assert(window.subrange(at as int, at + m)[k as int] == pattern@[k as int]);
                }
            }
            return false;
        }
        k = k + 1;
    }
    assert(window.subrange(at as int, at + m) =~= pattern@);
    true
}

/// Whether `c` can stand in a hash.
fn hash_char(c: char) -> (r: bool)
    ensures
        r == is_hash_char(c),
{
    let n: u32 = c as u32;
    (97 <= n && n <= 122) || (48 <= n && n <= 57)
}

/// The first place at or behind `from`, in the characters of `s` from
/// `start` to `end`, where `pattern` stands; counted from `start`.
fn find_in(s: &Vec<char>, start: usize, end: usize, pattern: &Vec<char>) -> (r: Option<usize>)
    requires
        start <= end <= s.len(),
        pattern.len() > 0,
    ensures
        r matches Some(at) ==> find_from(s@.subrange(start as int, end as int), pattern@, 0)
            == Some(at as int) && at + start + pattern.len() <= end,
        r is None ==> find_from(s@.subrange(start as int, end as int), pattern@, 0) is None,
{
    let ghost window = s@.subrange(start as int, end as int);
    let m: usize = pattern.len();
    let mut i: usize = start;
    while i <= end && m <= end - i
        invariant
            start <= i,
            start <= end <= s.len(),
            m == pattern.len(),
            m > 0,
            window == s@.subrange(start as int, end as int),
            find_from(window, pattern@, 0) == find_from(window, pattern@, i - start),
        decreases end + 1 - i,
    {
        let found = matches_at(s, end, pattern, i);
        proof {
            let whole = s@.subrange(0, end as int);
            if occurs_at(whole, pattern@, i as int) {
                assert(window.subrange(i - start, i - start + m) =~= whole.subrange(
                    i as int,
                    i + m,
                ));
            }
            if occurs_at(window, pattern@, i - start) {
                assert(whole.subrange(i as int, i + m) =~= window.subrange(
                    i - start,
                    i - start + m,
                ));
            }
        }
        if found {
            return Some(i - start);
        }
        i = i + 1;
    }
    None
}

/// Where a hash starts in the first `end` characters of `s`.
fn find_hash(s: &Vec<char>, end: usize, key: &Vec<char>) -> (r: Option<usize>)
    requires
        end <= s.len(),
        key@ == hash_key(),
    ensures
        r matches Some(at) ==> hash_start(s@.subrange(0, end as int), 0) == Some(at as int) && at
            < end,
        r is None ==> hash_start(s@.subrange(0, end as int), 0) is None,
{
    let ghost window = s@.subrange(0, end as int);
    let m: usize = key.len();
    let mut i: usize = 0;
    while i <= end && m < end - i
        invariant
            end <= s.len(),
            m == key.len(),
            key@ == hash_key(),
            window == s@.subrange(0, end as int),
            hash_start(window, 0) == hash_start(window, i as int),
        decreases end + 1 - i,
    {
        if matches_at(s, end, key, i) && hash_char(s[i + m]) {
            return Some(i + m);
        }
        i = i + 1;
    }
    None
}

/// Where the characters of a hash that start at `from` end, in the first
/// `end` characters of `s`.
fn find_hash_end(s: &Vec<char>, end: usize, from: usize) -> (r: usize)
    requires
        from <= end <= s.len(),
    ensures
        r == hash_end(s@.subrange(0, end as int), from as int),
        from <= r <= end,
{
    let ghost window = s@.subrange(0, end as int);
    let mut i: usize = from;
    while i < end && hash_char(s[i])
        invariant
            from <= i <= end,
            end <= s.len(),
            window == s@.subrange(0, end as int),
            hash_end(window, from as int) == hash_end(window, i as int),
        decreases end - i,
    {
        i = i + 1;
    }
    i
}

/// Reads the query that a log line records, with a count of zero.
pub fn get_query_from_log(line: &str) -> (r: Option<Query>)
    ensures
        optional_query(r) == query_of_log(line@),
{
    let chars = chars_of(line);
    let mark = chars_of("query:");
    let key = chars_of("query_hash=");
    let n: usize = chars.len();
    proof {
        reveal_strlit("query:");
        assert(chars@.subrange(0, n as int) =~= chars@);
    }
    let first = match find_in(&chars, 0, n, &mark) {
        Some(at) => at,
        None => {
            return None;
        },
    };
    let behind: usize = first + mark.len();
    let ghost metadata = line@.subrange(0, first as int);
    let ghost rest = line@.subrange(behind as int, n as int);
    let text_end: usize = match find_in(&chars, behind, n, &mark) {
        Some(next) => behind + next,
        None => n,
    };
    let start = match find_hash(&chars, first, &key) {
        Some(at) => at,
        None => {
            return None;
        },
    };
    let end = find_hash_end(&chars, first, start);
    let text = line.substring_char(behind, text_end);
    let hash = line.substring_char(start, end);
    proof {
        assert(text@ =~= match find_from(rest, query_mark(), 0) {
            Some(next) => rest.subrange(0, next),
            None => rest,
        });
        assert(hash@ =~= metadata.subrange(start as int, end as int));
    }
    Some(Query { query: trim(text), hash: hash.to_owned(), count: 0 })
}

} // verus!
