//! Line-level INI notions: section headers `[Name]` and `key = value` lines.
//! All predicates speak of a line that has already been trimmed.

use vstd::prelude::*;
use crate::text::{find_char, find_from, lemma_find_from};

verus! {

/// A trimmed line is a section header when it starts with `'['` and ends with
/// `']'`.
pub open spec fn is_header(t: Seq<char>) -> bool {
    t.len() >= 1 && t[0] == '[' && t[t.len() - 1] == ']'
}

/// The name between the brackets of a header line.
pub open spec fn header_name(t: Seq<char>) -> Seq<char> {
    t.subrange(1, t.len() - 1)
}

/// A trimmed line carries a key and a value when it contains `'='`.
pub open spec fn has_kv(t: Seq<char>) -> bool {
    find_from(t, '=', 0) >= 0
}

/// What stands before the first `'='`, untrimmed.
pub open spec fn kv_key(t: Seq<char>) -> Seq<char> {
    t.subrange(0, find_from(t, '=', 0))
}

/// What stands after the first `'='`, untrimmed.
pub open spec fn kv_value(t: Seq<char>) -> Seq<char> {
    t.subrange(find_from(t, '=', 0) + 1, t.len() as int)
}

/// A trimmed line the readers skip: blank, or a `;`/`#` comment.
pub open spec fn is_skippable(t: Seq<char>) -> bool {
    t.len() == 0 || t[0] == ';' || t[0] == '#'
}

pub fn line_is_header(t: &Vec<char>) -> (r: bool)
    ensures
        r == is_header(t@),
{
    t.len() >= 1 && t[0] == '[' && t[t.len() - 1] == ']'
}

pub fn line_is_skippable(t: &Vec<char>) -> (r: bool)
    ensures
        r == is_skippable(t@),
{
    t.len() == 0 || t[0] == ';' || t[0] == '#'
}

/// The name between the brackets of a header line.
pub fn header_name_chars(t: &Vec<char>) -> (r: Vec<char>)
    requires
        is_header(t@),
    ensures
        r@ == header_name(t@),
{
    let mut r: Vec<char> = Vec::new();
    let mut i: usize = 1;
    assert(t@[0] != t@[t@.len() - 1]);
    while i < t.len() - 1
        invariant
            1 <= i <= t@.len() - 1,
            t@.len() >= 2,
            r@ == t@.subrange(1, i as int),
        decreases t.len() - i,
    {
        r.push(t[i]);
        assert(t@.subrange(1, i + 1 as int) =~= t@.subrange(1, i as int).push(t@[i as int]));
        i += 1;
    }
    r
}

/// Splits a trimmed line at its first `'='`, if it has one.
pub fn split_kv(t: &Vec<char>) -> (r: Option<(Vec<char>, Vec<char>)>)
    ensures
        r is Some ==> has_kv(t@) && r.unwrap().0@ == kv_key(t@) && r.unwrap().1@ == kv_value(t@),
        r is None ==> !has_kv(t@),
{
    let eq_pos = find_char(t, '=');
    match eq_pos {
        None => None,
        Some(p) => {
            proof {
                lemma_find_from(t@, '=', 0);
            }
            let tl: usize = t.len();
            assert(p < tl);
            let mut k: Vec<char> = Vec::new();
            let mut i: usize = 0;
            while i < p
                invariant
                    i <= p < t@.len(),
                    k@ == t@.subrange(0, i as int),
                decreases p - i,
            {
                k.push(t[i]);
                assert(t@.subrange(0, i + 1 as int) =~= t@.subrange(0, i as int).push(
                    t@[i as int],
                ));
                i += 1;
            }
            let mut v: Vec<char> = Vec::new();
            let mut j: usize = p + 1;
            while j < t.len()
                invariant
                    p + 1 <= j <= t@.len(),
                    v@ == t@.subrange(p + 1 as int, j as int),
                decreases t.len() - j,
            {
                v.push(t[j]);
                assert(t@.subrange(p + 1 as int, j + 1 as int) =~= t@.subrange(
                    p + 1 as int,
                    j as int,
                ).push(t@[j as int]));
                j += 1;
            }
            Some((k, v))
        },
    }
}

} // verus!
