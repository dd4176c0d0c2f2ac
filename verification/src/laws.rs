//! The stated guarantees of the settings rewrite: idempotence, read-back of
//! the written value, preservation of unrelated lines, and the exact shape of
//! the text when the section or the file was missing.

use vstd::prelude::*;
use crate::text::{
    is_space, trim, trim_start, trim_end, eq_icase, find_from, lemma_find_from,
    strip_cr, split_acc, split_lines, join_lines,
};
use crate::ini::{is_header, header_name, has_kv, kv_key, kv_value};
use crate::settings::{
    is_paths_header, is_tdx_line, tdx_line_value, key_line, read_rec, spec_read_tdx_dir,
    update_rec, spec_update_content, spec_fresh_content,
};

verus! {

/// A line as the splitter produces it: free of line breaks and carriage
/// returns.
pub open spec fn clean_line(l: Seq<char>) -> bool {
    forall|i: int| 0 <= i < l.len() ==> l[i] != '\n' && l[i] != '\r'
}

/// Every line of the sequence is clean.
pub open spec fn clean_lines(ls: Seq<Seq<char>>) -> bool {
    forall|j: int| 0 <= j < ls.len() ==> clean_line(#[trigger] ls[j])
}

/// Text free of carriage returns.
pub open spec fn no_cr(s: Seq<char>) -> bool {
    forall|i: int| 0 <= i < s.len() ==> s[i] != '\r'
}

/// A directory value a write law speaks of: nonempty, already trimmed, and
/// free of line breaks.
pub open spec fn wf_dir(d: Seq<char>) -> bool {
    d.len() > 0 && !is_space(d[0]) && !is_space(d[d.len() - 1]) && clean_line(d)
}

/// Splitting carriage-return-free text yields clean lines.
pub proof fn lemma_split_clean(s: Seq<char>, cur: Seq<char>)
    requires
        no_cr(s),
        clean_line(cur),
    ensures
        clean_lines(split_acc(s, cur)),
    decreases s.len(),
{
    if s.len() == 0 {
    } else if s[0] == '\n' {
        assert(clean_line(strip_cr(cur)));
        assert(no_cr(s.drop_first()));
        lemma_split_clean(s.drop_first(), Seq::<char>::empty());
        assert forall|j: int|
            0 <= j < split_acc(s, cur).len() implies clean_line(
            #[trigger] split_acc(s, cur)[j],
        ) by {
            if j > 0 {
                assert(split_acc(s, cur)[j] == split_acc(s.drop_first(), Seq::<char>::empty())[j
                    - 1]);
            }
        }
    } else {
        assert(clean_line(cur.push(s[0])));
        assert(no_cr(s.drop_first()));
        lemma_split_clean(s.drop_first(), cur.push(s[0]));
    }
}

/// A line without breaks is absorbed whole into the splitter's current line.
pub proof fn lemma_split_absorb(l: Seq<char>, rest: Seq<char>, cur: Seq<char>)
    requires
        clean_line(l),
    ensures
        split_acc(l + rest, cur) == split_acc(rest, cur + l),
    decreases l.len(),
{
    if l.len() == 0 {
        assert(l + rest =~= rest);
        assert(cur + l =~= cur);
    } else {
        assert((l + rest)[0] == l[0]);
        assert((l + rest).drop_first() =~= l.drop_first() + rest);
        assert(clean_line(l.drop_first()));
        lemma_split_absorb(l.drop_first(), rest, cur.push(l[0]));
        assert(cur.push(l[0]) + l.drop_first() =~= cur + l);
    }
}

/// Splitting joined clean lines gives the lines back.
pub proof fn lemma_split_join(ls: Seq<Seq<char>>)
    requires
        clean_lines(ls),
    ensures
        split_lines(join_lines(ls)) == ls,
    decreases ls.len(),
{
    if ls.len() == 0 {
        assert(split_lines(join_lines(ls)) =~= ls);
    } else {
        let rest = ls.drop_first();
        assert(clean_line(ls[0]));
        assert(clean_lines(rest));
        assert(join_lines(ls) == ls[0].push('\n') + join_lines(rest));
        assert(ls[0].push('\n') + join_lines(rest) =~= ls[0] + (seq!['\n'] + join_lines(rest)));
        lemma_split_absorb(ls[0], seq!['\n'] + join_lines(rest), Seq::<char>::empty());
        assert(Seq::<char>::empty() + ls[0] =~= ls[0]);
        assert((seq!['\n'] + join_lines(rest))[0] == '\n');
        assert((seq!['\n'] + join_lines(rest)).drop_first() =~= join_lines(rest));
        assert(strip_cr(ls[0]) == ls[0]);
        lemma_split_join(rest);
        assert(seq![ls[0]] + rest =~= ls);
    }
}

/// A line the rewrite may emit for the key: already trimmed, no header, a
/// directory key line, clean.
pub open spec fn good_nl(nl: Seq<char>) -> bool {
    &&& trim(nl) == nl
    &&& !is_header(nl)
    &&& is_tdx_line(nl)
    &&& clean_line(nl)
}

/// The facts about the blank line and the `[Paths]` header line that the
/// rewrite appends.
pub proof fn lemma_marker_lines()
    ensures
        trim(Seq::<char>::empty()) == Seq::<char>::empty(),
        !is_header(Seq::<char>::empty()),
        !is_tdx_line(Seq::<char>::empty()),
        clean_line(Seq::<char>::empty()),
        trim("[Paths]"@) == "[Paths]"@,
        is_paths_header("[Paths]"@),
        clean_line("[Paths]"@),
{
    reveal_strlit("[Paths]");
    reveal_strlit("Paths");
    let h = "[Paths]"@;
    assert(h =~= seq!['[', 'P', 'a', 't', 'h', 's', ']']);
    assert("Paths"@ =~= seq!['P', 'a', 't', 'h', 's']);
    assert(trim_start(h) == h);
    assert(trim_end(h) == h);
    assert(is_header(h));
    assert(header_name(h) =~= "Paths"@);
    assert(eq_icase(header_name(h), "Paths"@));
    assert(clean_line(h));
    assert(trim_start(Seq::<char>::empty()) == Seq::<char>::empty());
    assert(trim_end(Seq::<char>::empty()) == Seq::<char>::empty());
    assert(find_from(Seq::<char>::empty(), '=', 0) == -1);
}

/// The key line written for a well-formed directory value is trimmed, is no
/// header, carries the key, and carries exactly that value.
pub proof fn lemma_key_line(d: Seq<char>)
    requires
        wf_dir(d),
    ensures
        good_nl(key_line(d)),
        tdx_line_value(key_line(d)) == d,
{
    reveal_strlit("TDX_Directory = ");
    reveal_strlit("TDX_Directory");
    let lit = "TDX_Directory = "@;
    let nl = key_line(d);
    assert(lit =~= seq![
        'T',
        'D',
        'X',
        '_',
        'D',
        'i',
        'r',
        'e',
        'c',
        't',
        'o',
        'r',
        'y',
        ' ',
        '=',
        ' ',
    ]);
    assert("TDX_Directory"@ =~= seq!['T', 'D', 'X', '_', 'D', 'i', 'r', 'e', 'c', 't', 'o', 'r', 'y']);
    assert(nl.len() == 16 + d.len());
    assert(nl[0] == 'T');
    assert(!is_space('T'));
    assert(trim_start(nl) == nl);
    assert(nl[nl.len() - 1] == d[d.len() - 1]);
    assert(trim_end(nl) == nl);
    assert(!is_header(nl));
    assert(clean_line(nl)) by {
        assert forall|i: int| 0 <= i < nl.len() implies nl[i] != '\n' && nl[i] != '\r' by {
            if i >= 16 {
                assert(nl[i] == d[i - 16]);
            }
        }
    }
    assert(nl[14] == '=');
    assert forall|k: int| 0 <= k < 14 implies nl[k] != '=' by {
        assert(nl[k] == lit[k]);
    }
    assert(find_from(nl, '=', 0) == 14) by {
        reveal_with_fuel(find_from, 16);
    }
    assert(has_kv(nl));
    let key = kv_key(nl);
    assert(key =~= lit.subrange(0, 14));
    assert(trim_start(key) == key);
    assert(is_space(key[key.len() - 1]));
    assert(key.drop_last() =~= "TDX_Directory"@);
    assert(trim_end(key) == trim_end("TDX_Directory"@));
    assert(trim_end("TDX_Directory"@) == "TDX_Directory"@);
    assert(trim(key) == "TDX_Directory"@);
    assert(eq_icase("TDX_Directory"@, "TDX_Directory"@));
    assert(is_tdx_line(nl));
    let val = kv_value(nl);
    assert(val =~= seq![' '] + d);
    assert(is_space(val[0]));
    assert(val.drop_first() =~= d);
    assert(trim_start(val) == trim_start(d));
    assert(trim_start(d) == d);
    assert(trim_end(d) == d);
    assert(tdx_line_value(nl) == d);
}

/// Running the rewrite again over its own output changes nothing, whatever
/// consistent state the scan is in (`up1` is the first run's replaced-flag,
/// `up2` the second's; a replacement the first run saw, the second has seen
/// too).
pub proof fn lemma_update_idem(
    l: Seq<Seq<char>>,
    ip: bool,
    up1: bool,
    up2: bool,
    fd: bool,
    nl: Seq<char>,
)
    requires
        good_nl(nl),
        up1 ==> up2,
        ip ==> fd,
    ensures
        update_rec(update_rec(l, ip, up1, fd, nl), ip, up2, fd, nl) == update_rec(
            l,
            ip,
            up1,
            fd,
            nl,
        ),
    decreases l.len(),
{
    lemma_marker_lines();
    let out = update_rec(l, ip, up1, fd, nl);
    let e = Seq::<Seq<char>>::empty();
    if l.len() == 0 {
        if ip && !up1 {
            assert(out =~= seq![nl]);
            assert(out[0] == nl);
            assert(out.drop_first() =~= e);
            assert(update_rec(e, ip, true, fd, nl) =~= e);
            assert(update_rec(out, ip, up2, fd, nl) =~= out);
        } else if !fd {
            assert(!ip);
            assert(out =~= seq![Seq::<char>::empty(), "[Paths]"@, nl]);
            let o1 = out.drop_first();
            let o2 = o1.drop_first();
            assert(out[0] == Seq::<char>::empty());
            assert(o1[0] == "[Paths]"@);
            assert(o1.drop_first() =~= o2);
            assert(o2[0] == nl);
            assert(o2.drop_first() =~= e);
            assert(update_rec(e, true, true, true, nl) =~= e);
            assert(update_rec(o2, true, up2, true, nl) =~= seq![nl]);
            assert(update_rec(o1, false, up2, false, nl) =~= seq!["[Paths]"@, nl]);
            assert(update_rec(out, ip, up2, fd, nl) =~= out);
        } else {
            assert(out =~= e);
            assert(update_rec(out, ip, up2, fd, nl) =~= e);
        }
    } else {
        let t = trim(l[0]);
        let rest = l.drop_first();
        if is_header(t) {
            let isp = is_paths_header(t);
            let fd2 = fd || isp;
            let r = update_rec(rest, isp, up1, fd2, nl);
            if ip && !up1 {
                assert(out =~= seq![nl] + (seq![l[0]] + r));
                assert(out[0] == nl);
                assert(out.drop_first() =~= seq![l[0]] + r);
                assert((seq![l[0]] + r)[0] == l[0]);
                assert((seq![l[0]] + r).drop_first() =~= r);
                lemma_update_idem(rest, isp, up1, true, fd2, nl);
                assert(update_rec(seq![l[0]] + r, ip, true, fd, nl) =~= seq![l[0]] + r);
                assert(update_rec(out, ip, up2, fd, nl) =~= out);
            } else {
                assert(out =~= seq![l[0]] + r);
                assert(out[0] == l[0]);
                assert(out.drop_first() =~= r);
                assert(ip ==> up2);
                lemma_update_idem(rest, isp, up1, up2, fd2, nl);
                assert(update_rec(out, ip, up2, fd, nl) =~= out);
            }
        } else if ip && is_tdx_line(t) {
            let r = update_rec(rest, ip, true, fd, nl);
            assert(out =~= seq![nl] + r);
            assert(out[0] == nl);
            assert(out.drop_first() =~= r);
            lemma_update_idem(rest, ip, true, true, fd, nl);
            assert(update_rec(out, ip, up2, fd, nl) =~= out);
        } else {
            let r = update_rec(rest, ip, up1, fd, nl);
            assert(out =~= seq![l[0]] + r);
            assert(out[0] == l[0]);
            assert(out.drop_first() =~= r);
            lemma_update_idem(rest, ip, up1, up2, fd, nl);
            assert(update_rec(out, ip, up2, fd, nl) =~= out);
        }
    }
}

/// The lines that are not a directory key line in `Paths` scope, in order.
pub open spec fn strip_rec(lines: Seq<Seq<char>>, in_paths: bool) -> Seq<Seq<char>>
    decreases lines.len(),
{
    if lines.len() == 0 {
        Seq::<Seq<char>>::empty()
    } else {
        let t = trim(lines[0]);
        if is_header(t) {
            seq![lines[0]] + strip_rec(lines.drop_first(), is_paths_header(t))
        } else if in_paths && is_tdx_line(t) {
            strip_rec(lines.drop_first(), in_paths)
        } else {
            seq![lines[0]] + strip_rec(lines.drop_first(), in_paths)
        }
    }
}

/// Whether any line opens the `Paths` section.
pub open spec fn has_paths(lines: Seq<Seq<char>>) -> bool
    decreases lines.len(),
{
    if lines.len() == 0 {
        false
    } else {
        is_paths_header(trim(lines[0])) || has_paths(lines.drop_first())
    }
}

pub proof fn lemma_clean_concat(a: Seq<Seq<char>>, b: Seq<Seq<char>>)
    requires
        clean_lines(a),
        clean_lines(b),
    ensures
        clean_lines(a + b),
{
    assert forall|j: int| 0 <= j < (a + b).len() implies clean_line(#[trigger] (a + b)[j]) by {
        if j < a.len() {
            assert((a + b)[j] == a[j]);
        } else {
            assert((a + b)[j] == b[j - a.len()]);
        }
    }
}

/// The rewrite's output lines are clean when its input lines and the key
/// line are.
pub proof fn lemma_update_clean(
    l: Seq<Seq<char>>,
    ip: bool,
    up: bool,
    fd: bool,
    nl: Seq<char>,
)
    requires
        clean_lines(l),
        clean_line(nl),
    ensures
        clean_lines(update_rec(l, ip, up, fd, nl)),
    decreases l.len(),
{
    lemma_marker_lines();
    let e = Seq::<Seq<char>>::empty();
    assert(clean_lines(seq![nl])) by {
        assert(seq![nl][0] == nl);
    }
    assert(clean_lines(seq![Seq::<char>::empty(), "[Paths]"@, nl])) by {
        assert(seq![Seq::<char>::empty(), "[Paths]"@, nl][0] == Seq::<char>::empty());
        assert(seq![Seq::<char>::empty(), "[Paths]"@, nl][1] == "[Paths]"@);
        assert(seq![Seq::<char>::empty(), "[Paths]"@, nl][2] == nl);
    }
    assert(clean_lines(e));
    if l.len() == 0 {
        lemma_clean_concat(
            if ip && !up {
                seq![nl]
            } else {
                e
            },
            if !fd {
                seq![Seq::<char>::empty(), "[Paths]"@, nl]
            } else {
                e
            },
        );
    } else {
        let t = trim(l[0]);
        let rest = l.drop_first();
        assert(clean_lines(rest)) by {
            assert forall|j: int| 0 <= j < rest.len() implies clean_line(#[trigger] rest[j]) by {
                assert(rest[j] == l[j + 1]);
            }
        }
        assert(clean_line(l[0]));
        assert(clean_lines(seq![l[0]])) by {
            assert(seq![l[0]][0] == l[0]);
        }
        if is_header(t) {
            let isp = is_paths_header(t);
            lemma_update_clean(rest, isp, up, fd || isp, nl);
            lemma_clean_concat(seq![l[0]], update_rec(rest, isp, up, fd || isp, nl));
            lemma_clean_concat(
                if ip && !up {
                    seq![nl]
                } else {
                    e
                },
                seq![l[0]] + update_rec(rest, isp, up, fd || isp, nl),
            );
            assert((if ip && !up {
                seq![nl]
            } else {
                e
            }) + (seq![l[0]] + update_rec(rest, isp, up, fd || isp, nl)) =~= (if ip && !up {
                seq![nl]
            } else {
                e
            }) + seq![l[0]] + update_rec(rest, isp, up, fd || isp, nl));
        } else if ip && is_tdx_line(t) {
            lemma_update_clean(rest, ip, true, fd, nl);
            lemma_clean_concat(seq![nl], update_rec(rest, ip, true, fd, nl));
        } else {
            lemma_update_clean(rest, ip, up, fd, nl);
            lemma_clean_concat(seq![l[0]], update_rec(rest, ip, up, fd, nl));
        }
    }
}

/// Lines that are neither headers nor key lines leave the read's answer as
/// it stands.
pub proof fn lemma_read_keeps(l: Seq<Seq<char>>, ip: bool, acc: Option<Seq<char>>)
    requires
        forall|j: int|
            0 <= j < l.len() ==> !is_header(trim(#[trigger] l[j])) && !is_tdx_line(trim(l[j])),
    ensures
        read_rec(l, ip, acc) == acc,
    decreases l.len(),
{
    if l.len() > 0 {
        let rest = l.drop_first();
        assert(!is_header(trim(l[0])) && !is_tdx_line(trim(l[0])));
        assert forall|j: int|
            0 <= j < rest.len() implies !is_header(trim(#[trigger] rest[j])) && !is_tdx_line(
            trim(rest[j]),
        ) by {
            assert(rest[j] == l[j + 1]);
        }
        lemma_read_keeps(rest, ip, acc);
    }
}

/// Reading the rewrite's output always finds the written value, whatever
/// consistent scan state the rewrite was in.
pub proof fn lemma_read_update(
    l: Seq<Seq<char>>,
    ip: bool,
    up: bool,
    fd: bool,
    acc: Option<Seq<char>>,
    nl: Seq<char>,
)
    requires
        good_nl(nl),
        ip ==> fd,
        up ==> acc == Some(tdx_line_value(nl)),
        fd && !ip && !up ==> acc == Some(tdx_line_value(nl)),
    ensures
        read_rec(update_rec(l, ip, up, fd, nl), ip, acc) == Some(tdx_line_value(nl)),
    decreases l.len(),
{
    lemma_marker_lines();
    let tv = Some(tdx_line_value(nl));
    let out = update_rec(l, ip, up, fd, nl);
    let e = Seq::<Seq<char>>::empty();
    if l.len() == 0 {
        if ip && !up {
            assert(out =~= seq![nl]);
            assert(out[0] == nl);
            assert(out.drop_first() =~= e);
            assert(read_rec(e, ip, tv) == tv);
            assert(read_rec(out, ip, acc) == tv);
        } else if !fd {
            assert(!ip);
            assert(out =~= seq![Seq::<char>::empty(), "[Paths]"@, nl]);
            let o1 = out.drop_first();
            let o2 = o1.drop_first();
            assert(out[0] == Seq::<char>::empty());
            assert(o1[0] == "[Paths]"@);
            assert(o1.drop_first() =~= o2);
            assert(o2[0] == nl);
            assert(o2.drop_first() =~= e);
            assert(read_rec(e, true, tv) == tv);
            assert(read_rec(o2, true, acc) == tv);
            assert(read_rec(o1, false, acc) == tv);
            assert(read_rec(out, ip, acc) == tv);
        } else {
            assert(out =~= e);
            assert(acc == tv);
        }
    } else {
        let t = trim(l[0]);
        let rest = l.drop_first();
        if is_header(t) {
            let isp = is_paths_header(t);
            let fd2 = fd || isp;
            let r = update_rec(rest, isp, up, fd2, nl);
            if ip && !up {
                assert(out =~= seq![nl] + (seq![l[0]] + r));
                assert(out[0] == nl);
                assert(out.drop_first() =~= seq![l[0]] + r);
                assert((seq![l[0]] + r)[0] == l[0]);
                assert((seq![l[0]] + r).drop_first() =~= r);
                lemma_read_update(rest, isp, up, fd2, tv, nl);
                assert(read_rec(seq![l[0]] + r, ip, tv) == tv);
                assert(read_rec(out, ip, acc) == tv);
            } else {
                assert(out =~= seq![l[0]] + r);
                assert(out[0] == l[0]);
                assert(out.drop_first() =~= r);
                lemma_read_update(rest, isp, up, fd2, acc, nl);
                assert(read_rec(out, ip, acc) == tv);
            }
        } else if ip && is_tdx_line(t) {
            let r = update_rec(rest, ip, true, fd, nl);
            assert(out =~= seq![nl] + r);
            assert(out[0] == nl);
            assert(out.drop_first() =~= r);
            lemma_read_update(rest, ip, true, fd, tv, nl);
            assert(read_rec(out, ip, acc) == tv);
        } else {
            let r = update_rec(rest, ip, up, fd, nl);
            assert(out =~= seq![l[0]] + r);
            assert(out[0] == l[0]);
            assert(out.drop_first() =~= r);
            lemma_read_update(rest, ip, up, fd, acc, nl);
            assert(read_rec(out, ip, acc) == tv);
        }
    }
}

/// The rewrite keeps every line that is not a directory key line in `Paths`
/// scope, in order; text without a `Paths` section gains exactly the blank
/// line and the header among those kept lines.
pub proof fn lemma_update_strip(l: Seq<Seq<char>>, ip: bool, up: bool, fd: bool, nl: Seq<char>)
    requires
        good_nl(nl),
        ip ==> fd,
    ensures
        fd || has_paths(l) ==> strip_rec(update_rec(l, ip, up, fd, nl), ip) == strip_rec(l, ip),
        !(fd || has_paths(l)) ==> strip_rec(update_rec(l, ip, up, fd, nl), ip) == strip_rec(l, ip)
            + seq![Seq::<char>::empty(), "[Paths]"@],
    decreases l.len(),
{
    lemma_marker_lines();
    let out = update_rec(l, ip, up, fd, nl);
    let e = Seq::<Seq<char>>::empty();
    if l.len() == 0 {
        if ip && !up {
            assert(out =~= seq![nl]);
            assert(out[0] == nl);
            assert(out.drop_first() =~= e);
            assert(strip_rec(e, ip) =~= e);
            assert(strip_rec(out, ip) =~= e);
        } else if !fd {
            assert(!ip);
            assert(out =~= seq![Seq::<char>::empty(), "[Paths]"@, nl]);
            let o1 = out.drop_first();
            let o2 = o1.drop_first();
            assert(out[0] == Seq::<char>::empty());
            assert(o1[0] == "[Paths]"@);
            assert(o1.drop_first() =~= o2);
            assert(o2[0] == nl);
            assert(o2.drop_first() =~= e);
            assert(strip_rec(e, true) =~= e);
            assert(strip_rec(o2, true) =~= e);
            assert(strip_rec(o1, false) =~= seq!["[Paths]"@]);
            assert(strip_rec(out, ip) =~= strip_rec(l, ip) + seq![Seq::<char>::empty(), "[Paths]"@]);
        } else {
            assert(out =~= e);
        }
    } else {
        let t = trim(l[0]);
        let rest = l.drop_first();
        if is_header(t) {
            let isp = is_paths_header(t);
            let fd2 = fd || isp;
            let r = update_rec(rest, isp, up, fd2, nl);
            lemma_update_strip(rest, isp, up, fd2, nl);
            if ip && !up {
                assert(out =~= seq![nl] + (seq![l[0]] + r));
                assert(out[0] == nl);
                assert(out.drop_first() =~= seq![l[0]] + r);
                assert((seq![l[0]] + r)[0] == l[0]);
                assert((seq![l[0]] + r).drop_first() =~= r);
                assert(strip_rec(seq![l[0]] + r, ip) =~= seq![l[0]] + strip_rec(r, isp));
                assert(strip_rec(out, ip) =~= seq![l[0]] + strip_rec(r, isp));
            } else {
                assert(out =~= seq![l[0]] + r);
                assert(out[0] == l[0]);
                assert(out.drop_first() =~= r);
                assert(strip_rec(out, ip) =~= seq![l[0]] + strip_rec(r, isp));
            }
            if fd2 || has_paths(rest) {
                assert(strip_rec(out, ip) =~= strip_rec(l, ip));
            } else {
                assert(seq![l[0]] + (strip_rec(rest, isp) + seq![Seq::<char>::empty(), "[Paths]"@])
                    =~= (seq![l[0]] + strip_rec(rest, isp)) + seq![
                    Seq::<char>::empty(),
                    "[Paths]"@,
                ]);
                assert(strip_rec(out, ip) =~= strip_rec(l, ip) + seq![
                    Seq::<char>::empty(),
                    "[Paths]"@,
                ]);
            }
        } else if ip && is_tdx_line(t) {
            let r = update_rec(rest, ip, true, fd, nl);
            lemma_update_strip(rest, ip, true, fd, nl);
            assert(out =~= seq![nl] + r);
            assert(out[0] == nl);
            assert(out.drop_first() =~= r);
            assert(strip_rec(out, ip) == strip_rec(r, ip));
            assert(strip_rec(out, ip) =~= strip_rec(l, ip));
        } else {
            let r = update_rec(rest, ip, up, fd, nl);
            lemma_update_strip(rest, ip, up, fd, nl);
            assert(out =~= seq![l[0]] + r);
            assert(out[0] == l[0]);
            assert(out.drop_first() =~= r);
            assert(strip_rec(out, ip) =~= seq![l[0]] + strip_rec(r, ip));
            if fd || has_paths(rest) {
                assert(strip_rec(out, ip) =~= strip_rec(l, ip));
            } else {
                assert(seq![l[0]] + (strip_rec(rest, ip) + seq![Seq::<char>::empty(), "[Paths]"@])
                    =~= (seq![l[0]] + strip_rec(rest, ip)) + seq![Seq::<char>::empty(), "[Paths]"@]);
                assert(strip_rec(out, ip) =~= strip_rec(l, ip) + seq![
                    Seq::<char>::empty(),
                    "[Paths]"@,
                ]);
            }
        }
    }
}

/// Text without a `Paths` section is kept whole and gains exactly the blank
/// line, the header and the key line at its end.
pub proof fn lemma_update_no_paths(l: Seq<Seq<char>>, up: bool, nl: Seq<char>)
    requires
        !has_paths(l),
    ensures
        update_rec(l, false, up, false, nl) == l + seq![Seq::<char>::empty(), "[Paths]"@, nl],
    decreases l.len(),
{
    let out = update_rec(l, false, up, false, nl);
    if l.len() == 0 {
        assert(out =~= l + seq![Seq::<char>::empty(), "[Paths]"@, nl]);
    } else {
        let t = trim(l[0]);
        let rest = l.drop_first();
        lemma_update_no_paths(rest, up, nl);
        if is_header(t) {
            assert(!is_paths_header(t));
            assert(out =~= seq![l[0]] + (rest + seq![Seq::<char>::empty(), "[Paths]"@, nl]));
            assert(out =~= l + seq![Seq::<char>::empty(), "[Paths]"@, nl]);
        } else {
            assert(out =~= seq![l[0]] + (rest + seq![Seq::<char>::empty(), "[Paths]"@, nl]));
            assert(out =~= l + seq![Seq::<char>::empty(), "[Paths]"@, nl]);
        }
    }
}

/// A line that neither opens a section nor assigns the directory key.
pub open spec fn inert_line(l: Seq<char>) -> bool {
    !is_header(trim(l)) && !is_tdx_line(trim(l))
}

/// Every line of the sequence is inert.
pub open spec fn inert_lines(ls: Seq<Seq<char>>) -> bool {
    forall|j: int| 0 <= j < ls.len() ==> inert_line(#[trigger] ls[j])
}

/// Text whose `[Paths]` section assigns `TDX_Directory = d` as its last
/// in-scope key line reads back exactly `d`: whatever lines precede the
/// header, and whatever inert lines follow the key line.
pub proof fn lemma_read_finds(
    pre: Seq<Seq<char>>,
    d: Seq<char>,
    post: Seq<Seq<char>>,
    ip: bool,
    acc: Option<Seq<char>>,
)
    requires
        wf_dir(d),
        inert_lines(post),
    ensures
        read_rec(pre + seq!["[Paths]"@, key_line(d)] + post, ip, acc) == Some(d),
    decreases pre.len(),
{
    lemma_marker_lines();
    lemma_key_line(d);
    let whole = pre + seq!["[Paths]"@, key_line(d)] + post;
    if pre.len() == 0 {
        assert(whole[0] == "[Paths]"@);
        let w1 = whole.drop_first();
        assert(w1 =~= seq![key_line(d)] + post);
        assert(w1[0] == key_line(d));
        assert(w1.drop_first() =~= post);
        assert forall|j: int|
            0 <= j < post.len() implies !is_header(trim(#[trigger] post[j])) && !is_tdx_line(
            trim(post[j]),
        ) by {
            assert(inert_line(post[j]));
        }
        lemma_read_keeps(post, true, Some(d));
        assert(read_rec(w1, true, acc) == Some(d));
        assert(read_rec(whole, ip, acc) == Some(d));
    } else {
        let rest = pre.drop_first();
        assert(whole[0] == pre[0]);
        assert(whole.drop_first() =~= rest + seq!["[Paths]"@, key_line(d)] + post);
        let t = trim(pre[0]);
        if is_header(t) {
            lemma_read_finds(rest, d, post, is_paths_header(t), acc);
        } else if ip && is_tdx_line(t) {
            lemma_read_finds(rest, d, post, ip, Some(tdx_line_value(t)));
        } else {
            lemma_read_finds(rest, d, post, ip, acc);
        }
        assert(read_rec(whole, ip, acc) == Some(d));
    }
}

/// Writing the same directory value twice changes nothing: the second
/// rewrite returns its input unchanged. Holds for carriage-return-free text
/// and a nonempty, trimmed, break-free value.
pub proof fn lemma_write_idempotent(s: Seq<char>, d: Seq<char>)
    requires
        no_cr(s),
        wf_dir(d),
    ensures
        spec_update_content(spec_update_content(s, d), d) == spec_update_content(s, d),
{
    lemma_key_line(d);
    let nl = key_line(d);
    let l = split_lines(s);
    let out = update_rec(l, false, false, false, nl);
    lemma_split_clean(s, Seq::<char>::empty());
    lemma_update_clean(l, false, false, false, nl);
    lemma_split_join(out);
    lemma_update_idem(l, false, false, false, false, nl);
}

/// What was written is what a subsequent read returns.
pub proof fn lemma_write_then_read(s: Seq<char>, d: Seq<char>)
    requires
        no_cr(s),
        wf_dir(d),
    ensures
        spec_read_tdx_dir(spec_update_content(s, d)) == Some(d),
{
    lemma_key_line(d);
    let nl = key_line(d);
    let l = split_lines(s);
    let out = update_rec(l, false, false, false, nl);
    lemma_split_clean(s, Seq::<char>::empty());
    lemma_update_clean(l, false, false, false, nl);
    lemma_split_join(out);
    lemma_read_update(l, false, false, false, None, nl);
}

/// A write into text that has a `Paths` section keeps every line that is not
/// a directory key line in scope, byte for byte and in order.
pub proof fn lemma_write_preserves_unrelated(s: Seq<char>, d: Seq<char>)
    requires
        no_cr(s),
        wf_dir(d),
        has_paths(split_lines(s)),
    ensures
        strip_rec(split_lines(spec_update_content(s, d)), false) == strip_rec(
            split_lines(s),
            false,
        ),
{
    lemma_key_line(d);
    let nl = key_line(d);
    let l = split_lines(s);
    let out = update_rec(l, false, false, false, nl);
    lemma_split_clean(s, Seq::<char>::empty());
    lemma_update_clean(l, false, false, false, nl);
    lemma_split_join(out);
    lemma_update_strip(l, false, false, false, nl);
}

/// A write into text without a `Paths` section keeps the text whole and
/// appends exactly the blank line, the header and the key line.
pub proof fn lemma_write_appends_missing_section(s: Seq<char>, d: Seq<char>)
    requires
        no_cr(s),
        wf_dir(d),
        !has_paths(split_lines(s)),
    ensures
        split_lines(spec_update_content(s, d)) == split_lines(s) + seq![
            Seq::<char>::empty(),
            "[Paths]"@,
            key_line(d),
        ],
{
    lemma_key_line(d);
    let nl = key_line(d);
    let l = split_lines(s);
    let out = update_rec(l, false, false, false, nl);
    lemma_split_clean(s, Seq::<char>::empty());
    lemma_update_clean(l, false, false, false, nl);
    lemma_split_join(out);
    lemma_update_no_paths(l, false, nl);
}

/// The text created for a missing file holds exactly the section header and
/// the key line, and reads back the written value.
pub proof fn lemma_fresh_content_reads_back(d: Seq<char>)
    requires
        wf_dir(d),
    ensures
        split_lines(spec_fresh_content(d)) == seq!["[Paths]"@, key_line(d)],
        spec_read_tdx_dir(spec_fresh_content(d)) == Some(d),
{
    lemma_marker_lines();
    lemma_key_line(d);
    let ls = seq!["[Paths]"@, key_line(d)];
    assert(clean_lines(ls)) by {
        assert(ls[0] == "[Paths]"@);
        assert(ls[1] == key_line(d));
    }
    assert(spec_fresh_content(d) =~= join_lines(ls)) by {
        reveal_strlit("[Paths]\n");
        reveal_strlit("[Paths]");
        reveal_strlit("\n");
        assert(ls.drop_first() =~= seq![key_line(d)]);
        assert(seq![key_line(d)].drop_first() =~= Seq::<Seq<char>>::empty());
        assert(join_lines(seq![key_line(d)]) == key_line(d).push('\n') + join_lines(
            Seq::<Seq<char>>::empty(),
        ));
    }
    lemma_split_join(ls);
    let e = Seq::<Seq<char>>::empty();
    assert(e + ls + e =~= ls);
    lemma_read_finds(e, d, e, false, None);
}

} // verus!
