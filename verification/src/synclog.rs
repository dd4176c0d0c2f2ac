//! The sync log formatter: finds the last line carrying one of the two
//! timestamp labels, extracts its date token, and prepends a summary line to
//! the unmodified log text.

use vstd::prelude::*;
use crate::text::{
    trim, trim_chars, starts_with, starts_with_chars, split_lines, split_lines_vec, line_views,
    chars_of, string_of, push_chars, find_from, find_char, lemma_find_from,
};
use crate::ini::{has_kv, kv_value, split_kv};

verus! {

/// A trimmed line that carries a timestamp: it starts with the label for
/// "last sync time" or the one for "last check time".
pub open spec fn is_stamp_line(t: Seq<char>) -> bool {
    starts_with(t, "上次同步时间"@) || starts_with(t, "上次检查时间"@)
}

/// The last trimmed timestamp line of the text, if any.
pub open spec fn stamp_rec(lines: Seq<Seq<char>>, best: Option<Seq<char>>) -> Option<Seq<char>>
    decreases lines.len(),
{
    if lines.len() == 0 {
        best
    } else {
        let t = trim(lines[0]);
        if is_stamp_line(t) {
            stamp_rec(lines.drop_first(), Some(t))
        } else {
            stamp_rec(lines.drop_first(), best)
        }
    }
}

/// The date token of a trimmed value: everything before the first `'('`,
/// trimmed, or the value itself when it has none.
pub open spec fn date_token(val: Seq<char>) -> Seq<char> {
    if find_from(val, '(', 0) >= 0 {
        trim(val.subrange(0, find_from(val, '(', 0)))
    } else {
        val
    }
}

/// The summary line the log gains, empty when no timestamp line with a value
/// exists.
pub open spec fn spec_db_date_display(s: Seq<char>) -> Seq<char> {
    match stamp_rec(split_lines(s), None) {
        Some(l) => if has_kv(l) {
            "数据库日期: "@ + date_token(trim(kv_value(l))) + "\n"@
        } else {
            Seq::<char>::empty()
        },
        None => Seq::<char>::empty(),
    }
}

/// View of an optional character vector.
pub open spec fn opt_stamp(o: Option<Vec<char>>) -> Option<Seq<char>> {
    match o {
        Some(v) => Some(v@),
        None => None,
    }
}

/// The summary line derived from log text.
pub fn extract_db_date_display(content: &str) -> (r: String)
    ensures
        r@ == spec_db_date_display(content@),
{
    let chars = chars_of(content);
    let lines = split_lines_vec(&chars);
    let sync_lit = chars_of("上次同步时间");
    let check_lit = chars_of("上次检查时间");
    let ghost l: Seq<Seq<char>> = line_views(lines@);
    let mut best: Option<Vec<char>> = None;
    let mut i: usize = 0;
    assert(l.skip(0) =~= l);
    while i < lines.len()
        invariant
            i <= lines.len(),
            l == line_views(lines@),
            sync_lit@ == "上次同步时间"@,
            check_lit@ == "上次检查时间"@,
            stamp_rec(l, None) == stamp_rec(l.skip(i as int), opt_stamp(best)),
        decreases lines.len() - i,
    {
        assert(l.skip(i as int)[0] == lines@[i as int]@);
        assert(l.skip(i as int).drop_first() =~= l.skip(i as int + 1));
        let t = trim_chars(&lines[i]);
        if starts_with_chars(&t, &sync_lit) || starts_with_chars(&t, &check_lit) {
            best = Some(t);
        }
        i += 1;
    }
    assert(l.skip(l.len() as int) =~= Seq::<Seq<char>>::empty());
    match best {
        Some(stamp) => {
            match split_kv(&stamp) {
                Some((_k, v)) => {
                    let val = trim_chars(&v);
                    let date = match find_char(&val, '(') {
                        Some(p) => {
                            proof {
                                lemma_find_from(val@, '(', 0);
                            }
                            let mut head: Vec<char> = Vec::new();
                            let mut j: usize = 0;
                            while j < p
                                invariant
                                    j <= p < val@.len(),
                                    head@ == val@.subrange(0, j as int),
                                decreases p - j,
                            {
                                head.push(val[j]);
                                assert(val@.subrange(0, j + 1 as int) =~= val@.subrange(
                                    0,
                                    j as int,
                                ).push(val@[j as int]));
                                j += 1;
                            }
                            trim_chars(&head)
                        },
                        None => val,
                    };
                    let mut r = chars_of("数据库日期: ");
                    push_chars(&mut r, &date);
                    let tail = chars_of("\n");
                    push_chars(&mut r, &tail);
                    string_of(&r)
                },
                None => {
                    let empty: Vec<char> = Vec::new();
                    string_of(&empty)
                },
            }
        },
        None => {
            let empty: Vec<char> = Vec::new();
            string_of(&empty)
        },
    }
}

/// The full sync log view: the summary line, then the unmodified text.
pub fn format_sync_log(content: &str) -> (r: String)
    ensures
        r@ == spec_db_date_display(content@) + content@,
{
    let mut r = chars_of(&extract_db_date_display(content));
    let body = chars_of(content);
    push_chars(&mut r, &body);
    string_of(&r)
}

/// The user-facing diagnostic for a log that could not be read, naming the
/// resolved path.
pub fn sync_log_read_error(path: &str) -> (r: String)
    ensures
        r@ == "错误: 无法读取日志文件\n"@ + path@,
{
    let mut r = chars_of("错误: 无法读取日志文件\n");
    let p = chars_of(path);
    push_chars(&mut r, &p);
    string_of(&r)
}

} // verus!
