//! The announcement extractor: flat `key = value` text, no section scoping,
//! with a sentinel default for each of the two recognized keys.

use vstd::prelude::*;
use crate::text::{
    trim, trim_chars, eq_icase, eq_icase_chars, split_lines, split_lines_vec, line_views, chars_of,
    string_of,
};
use crate::ini::{has_kv, kv_key, kv_value, is_skippable, line_is_skippable, split_kv};

verus! {

/// What announcement text yields.
pub struct Announcement {
    pub title: String,
    pub content: String,
}

/// One scan step: comment and blank lines and lines without `'='` are
/// skipped; the last occurrence of each recognized key wins.
pub open spec fn announce_rec(lines: Seq<Seq<char>>, title: Seq<char>, body: Seq<char>) -> (
    Seq<char>,
    Seq<char>,
)
    decreases lines.len(),
{
    if lines.len() == 0 {
        (title, body)
    } else {
        let t = trim(lines[0]);
        if is_skippable(t) || !has_kv(t) {
            announce_rec(lines.drop_first(), title, body)
        } else {
            let k = trim(kv_key(t));
            let v = trim(kv_value(t));
            if eq_icase(k, "title"@) {
                announce_rec(lines.drop_first(), v, body)
            } else if eq_icase(k, "content"@) {
                announce_rec(lines.drop_first(), title, v)
            } else {
                announce_rec(lines.drop_first(), title, body)
            }
        }
    }
}

/// Title and body that `s` yields, starting from the two sentinels.
pub open spec fn spec_announcement(s: Seq<char>) -> (Seq<char>, Seq<char>) {
    announce_rec(split_lines(s), "(无标题)"@, "(无内容)"@)
}

/// Extracts the announcement from full announcement text.
pub fn get_announcement(content: &str) -> (r: Announcement)
    ensures
        r.title@ == spec_announcement(content@).0,
        r.content@ == spec_announcement(content@).1,
{
    let chars = chars_of(content);
    let lines = split_lines_vec(&chars);
    let title_lit = chars_of("title");
    let content_lit = chars_of("content");
    let ghost l: Seq<Seq<char>> = line_views(lines@);
    let mut title = chars_of("(无标题)");
    let mut body = chars_of("(无内容)");
    let mut i: usize = 0;
    assert(l.skip(0) =~= l);
    while i < lines.len()
        invariant
            i <= lines.len(),
            l == line_views(lines@),
            title_lit@ == "title"@,
            content_lit@ == "content"@,
            spec_announcement(chars@) == announce_rec(l.skip(i as int), title@, body@),
        decreases lines.len() - i,
    {
        assert(l.skip(i as int)[0] == lines@[i as int]@);
        assert(l.skip(i as int).drop_first() =~= l.skip(i as int + 1));
        let t = trim_chars(&lines[i]);
        if !line_is_skippable(&t) {
            match split_kv(&t) {
                Some((k, v)) => {
                    let kt = trim_chars(&k);
                    if eq_icase_chars(&kt, &title_lit) {
                        title = trim_chars(&v);
                    } else if eq_icase_chars(&kt, &content_lit) {
                        body = trim_chars(&v);
                    }
                },
                None => {},
            }
        }
        i += 1;
    }
    assert(l.skip(l.len() as int) =~= Seq::<Seq<char>>::empty());
    Announcement { title: string_of(&title), content: string_of(&body) }
}

} // verus!
