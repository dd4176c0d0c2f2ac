//! The directory setting store: reading `TDX_Directory` out of the `[Paths]`
//! section of settings text, and rewriting that text so that every other line
//! survives byte for byte while the key is replaced in place, inserted into an
//! existing `[Paths]` section, or appended together with a fresh section.

use vstd::prelude::*;
use crate::text::{
    trim, trim_chars, eq_icase, eq_icase_chars, split_lines, split_lines_vec, join_lines,
    join_lines_vec, line_views, chars_of, string_of, push_chars,
};
use crate::ini::{
    is_header, header_name, has_kv, kv_key, kv_value, line_is_header, header_name_chars, split_kv,
};

verus! {

/// A header line that opens the `Paths` section.
pub open spec fn is_paths_header(t: Seq<char>) -> bool {
    is_header(t) && eq_icase(header_name(t), "Paths"@)
}

/// A trimmed line that assigns the directory key.
pub open spec fn is_tdx_line(t: Seq<char>) -> bool {
    has_kv(t) && eq_icase(trim(kv_key(t)), "TDX_Directory"@)
}

/// The trimmed value carried by a directory key line.
pub open spec fn tdx_line_value(t: Seq<char>) -> Seq<char> {
    trim(kv_value(t))
}

/// The line a write emits for the new directory value.
pub open spec fn key_line(d: Seq<char>) -> Seq<char> {
    "TDX_Directory = "@ + d
}

/// Scanning read: headers move the scope, and inside `Paths` the last
/// directory key line wins.
pub open spec fn read_rec(lines: Seq<Seq<char>>, in_paths: bool, acc: Option<Seq<char>>) -> Option<
    Seq<char>,
>
    decreases lines.len(),
{
    if lines.len() == 0 {
        acc
    } else {
        let t = trim(lines[0]);
        if is_header(t) {
            read_rec(lines.drop_first(), is_paths_header(t), acc)
        } else if in_paths && is_tdx_line(t) {
            read_rec(lines.drop_first(), in_paths, Some(tdx_line_value(t)))
        } else {
            read_rec(lines.drop_first(), in_paths, acc)
        }
    }
}

/// The directory value that settings text holds, if any.
pub open spec fn spec_read_tdx_dir(s: Seq<char>) -> Option<Seq<char>> {
    read_rec(split_lines(s), false, None)
}

/// The rewrite as a scan over lines. `in_paths` tracks the scope, `updated`
/// whether a key line was already replaced, `found` whether a `Paths` header
/// was ever seen. Leaving the `Paths` scope, or ending inside it, without a
/// replacement inserts the new key line; text without a `Paths` section gains
/// a blank line, the header and the key line at its end.
pub open spec fn update_rec(
    lines: Seq<Seq<char>>,
    in_paths: bool,
    updated: bool,
    found: bool,
    nl: Seq<char>,
) -> Seq<Seq<char>>
    decreases lines.len(),
{
    if lines.len() == 0 {
        (if in_paths && !updated {
            seq![nl]
        } else {
            Seq::<Seq<char>>::empty()
        }) + (if !found {
            seq![Seq::<char>::empty(), "[Paths]"@, nl]
        } else {
            Seq::<Seq<char>>::empty()
        })
    } else {
        let t = trim(lines[0]);
        if is_header(t) {
            (if in_paths && !updated {
                seq![nl]
            } else {
                Seq::<Seq<char>>::empty()
            }) + seq![lines[0]] + update_rec(
                lines.drop_first(),
                is_paths_header(t),
                updated,
                found || is_paths_header(t),
                nl,
            )
        } else if in_paths && is_tdx_line(t) {
            seq![nl] + update_rec(lines.drop_first(), in_paths, true, found, nl)
        } else {
            seq![lines[0]] + update_rec(lines.drop_first(), in_paths, updated, found, nl)
        }
    }
}

/// The settings text after writing directory value `d` into `s`.
pub open spec fn spec_update_content(s: Seq<char>, d: Seq<char>) -> Seq<char> {
    join_lines(update_rec(split_lines(s), false, false, false, key_line(d)))
}

/// The settings text a write creates when no file existed.
pub open spec fn spec_fresh_content(d: Seq<char>) -> Seq<char> {
    "[Paths]\n"@ + key_line(d) + "\n"@
}

/// View of an optional character vector.
pub open spec fn opt_view(o: Option<Vec<char>>) -> Option<Seq<char>> {
    match o {
        Some(v) => Some(v@),
        None => None,
    }
}

/// Reads the `TDX_Directory` value from the `[Paths]` section of `content`:
/// the last occurrence in scope wins, keys match case-insensitively, and the
/// value comes back trimmed.
pub fn read_tdx_dir(content: &str) -> (r: Option<String>)
    ensures
        r is Some <==> spec_read_tdx_dir(content@) is Some,
        r matches Some(v) ==> spec_read_tdx_dir(content@) == Some(v@),
{
    let chars = chars_of(content);
    let lines = split_lines_vec(&chars);
    let paths_lit = chars_of("Paths");
    let tdx_lit = chars_of("TDX_Directory");
    let ghost l: Seq<Seq<char>> = line_views(lines@);
    let mut in_paths = false;
    let mut acc: Option<Vec<char>> = None;
    let mut i: usize = 0;
    assert(l.skip(0) =~= l);
    while i < lines.len()
        invariant
            i <= lines.len(),
            l == line_views(lines@),
            paths_lit@ == "Paths"@,
            tdx_lit@ == "TDX_Directory"@,
            read_rec(l, false, None) == read_rec(l.skip(i as int), in_paths, opt_view(acc)),
        decreases lines.len() - i,
    {
        assert(l.skip(i as int)[0] == lines@[i as int]@);
        assert(l.skip(i as int).drop_first() =~= l.skip(i as int + 1));
        let t = trim_chars(&lines[i]);
        if line_is_header(&t) {
            let name = header_name_chars(&t);
            in_paths = eq_icase_chars(&name, &paths_lit);
        } else if in_paths {
            match split_kv(&t) {
                Some((k, v)) => {
                    let kt = trim_chars(&k);
                    if eq_icase_chars(&kt, &tdx_lit) {
                        acc = Some(trim_chars(&v));
                    }
                },
                None => {},
            }
        }
        i += 1;
    }
    assert(l.skip(l.len() as int) =~= Seq::<Seq<char>>::empty());
    match acc {
        Some(v) => Some(string_of(&v)),
        None => None,
    }
}

/// Appends a copy of `src` as one more output line.
fn push_line(out: &mut Vec<Vec<char>>, src: &Vec<char>)
    ensures
        line_views(final(out)@) == line_views(old(out)@).push(src@),
{
    let mut copy: Vec<char> = Vec::new();
    push_chars(&mut copy, src);
    let ghost before: Seq<Vec<char>> = out@;
    out.push(copy);
    assert(line_views(out@) =~= line_views(before).push(src@));
}

/// Rewrites existing settings text with directory value `new_dir`, keeping
/// every unrelated line as it stands.
pub fn write_tdx_dir_content(existing: &str, new_dir: &str) -> (r: String)
    ensures
        r@ == spec_update_content(existing@, new_dir@),
{
    let chars = chars_of(existing);
    let lines = split_lines_vec(&chars);
    let mut nl: Vec<char> = chars_of("TDX_Directory = ");
    let nd = chars_of(new_dir);
    push_chars(&mut nl, &nd);
    assert(nl@ == key_line(new_dir@));
    let paths_lit = chars_of("Paths");
    let tdx_lit = chars_of("TDX_Directory");
    let ghost l: Seq<Seq<char>> = line_views(lines@);
    let mut out: Vec<Vec<char>> = Vec::new();
    let mut in_paths = false;
    let mut updated = false;
    let mut found = false;
    let mut i: usize = 0;
    assert(l.skip(0) =~= l);
    assert(line_views(out@) =~= Seq::<Seq<char>>::empty());
    while i < lines.len()
        invariant
            i <= lines.len(),
            l == line_views(lines@),
            paths_lit@ == "Paths"@,
            tdx_lit@ == "TDX_Directory"@,
            nl@ == key_line(new_dir@),
            update_rec(l, false, false, false, nl@) == line_views(out@) + update_rec(
                l.skip(i as int),
                in_paths,
                updated,
                found,
                nl@,
            ),
        decreases lines.len() - i,
    {
        assert(l.skip(i as int)[0] == lines@[i as int]@);
        assert(l.skip(i as int).drop_first() =~= l.skip(i as int + 1));
        let ghost out0: Seq<Seq<char>> = line_views(out@);
        let ghost rest: Seq<Seq<char>> = l.skip(i as int + 1);
        let t = trim_chars(&lines[i]);
        if line_is_header(&t) {
            if in_paths && !updated {
                push_line(&mut out, &nl);
            }
            push_line(&mut out, &lines[i]);
            let name = header_name_chars(&t);
            let isp = eq_icase_chars(&name, &paths_lit);
            let ghost ins: Seq<Seq<char>> = if in_paths && !updated {
                seq![nl@]
            } else {
                Seq::<Seq<char>>::empty()
            };
            in_paths = isp;
            if isp {
                found = true;
            }
            assert(line_views(out@) + update_rec(rest, in_paths, updated, found, nl@) =~= out0 + (
            ins + seq![l.skip(i as int)[0]] + update_rec(rest, in_paths, updated, found, nl@)));
        } else {
            let mut replaced = false;
            if in_paths {
                match split_kv(&t) {
                    Some((k, _v)) => {
                        let kt = trim_chars(&k);
                        if eq_icase_chars(&kt, &tdx_lit) {
                            push_line(&mut out, &nl);
                            updated = true;
                            replaced = true;
                        }
                    },
                    None => {},
                }
            }
            if !replaced {
                push_line(&mut out, &lines[i]);
                assert(line_views(out@) + update_rec(rest, in_paths, updated, found, nl@) =~= out0
                    + (seq![l.skip(i as int)[0]] + update_rec(rest, in_paths, updated, found, nl@)));
            } else {
                assert(line_views(out@) + update_rec(rest, in_paths, updated, found, nl@) =~= out0
                    + (seq![nl@] + update_rec(rest, in_paths, updated, found, nl@)));
            }
        }
        i += 1;
    }
    assert(l.skip(l.len() as int) =~= Seq::<Seq<char>>::empty());
    if in_paths && !updated {
        push_line(&mut out, &nl);
    }
    if !found {
        let empty_line: Vec<char> = Vec::new();
        let header_line = chars_of("[Paths]");
        push_line(&mut out, &empty_line);
        push_line(&mut out, &header_line);
        push_line(&mut out, &nl);
    }
    assert(line_views(out@) =~= update_rec(l, false, false, false, nl@));
    let joined = join_lines_vec(&out);
    string_of(&joined)
}

/// The settings text for a path where no file existed: the `Paths` header and
/// the one key line.
pub fn fresh_settings_content(new_dir: &str) -> (r: String)
    ensures
        r@ == spec_fresh_content(new_dir@),
{
    let mut v = chars_of("[Paths]\n");
    let mut nl = chars_of("TDX_Directory = ");
    let nd = chars_of(new_dir);
    push_chars(&mut nl, &nd);
    push_chars(&mut v, &nl);
    let tail = chars_of("\n");
    push_chars(&mut v, &tail);
    string_of(&v)
}

} // verus!
