//! The authorization info extractor: scans INI text for the `[AUTH]` section
//! and maps its recognized keys to a display record with fixed fallbacks.

use vstd::prelude::*;
use crate::text::{
    trim, trim_chars, eq_icase, eq_icase_chars, split_lines, split_lines_vec, line_views, chars_of,
    string_of, chars_eq,
};
use crate::ini::{has_kv, kv_key, kv_value, is_skippable, line_is_skippable, split_kv};

verus! {

/// What the `[AUTH]` section yields for one record.
pub struct AuthInfo {
    pub machine_code: String,
    pub user_type_display: String,
    pub auth_end: String,
}

/// One scan step: a line starting with `'['` moves the scope (only the exact
/// trimmed line `[AUTH]`, compared case-insensitively, opens it); inside the
/// scope the last occurrence of each recognized key wins.
pub open spec fn auth_rec(
    lines: Seq<Seq<char>>,
    in_auth: bool,
    mc: Option<Seq<char>>,
    at: Option<Seq<char>>,
    ae: Option<Seq<char>>,
) -> (Option<Seq<char>>, Option<Seq<char>>, Option<Seq<char>>)
    decreases lines.len(),
{
    if lines.len() == 0 {
        (mc, at, ae)
    } else {
        let t = trim(lines[0]);
        if t.len() >= 1 && t[0] == '[' {
            auth_rec(lines.drop_first(), eq_icase(t, "[AUTH]"@), mc, at, ae)
        } else if !in_auth || is_skippable(t) || !has_kv(t) {
            auth_rec(lines.drop_first(), in_auth, mc, at, ae)
        } else {
            let k = trim(kv_key(t));
            let v = trim(kv_value(t));
            if eq_icase(k, "machine_code"@) {
                auth_rec(lines.drop_first(), in_auth, Some(v), at, ae)
            } else if eq_icase(k, "auth_type"@) {
                auth_rec(lines.drop_first(), in_auth, mc, Some(v), ae)
            } else if eq_icase(k, "auth_end"@) {
                auth_rec(lines.drop_first(), in_auth, mc, at, Some(v))
            } else {
                auth_rec(lines.drop_first(), in_auth, mc, at, ae)
            }
        }
    }
}

/// The three raw values that `content` holds for the `[AUTH]` section.
pub open spec fn spec_auth_values(s: Seq<char>) -> (
    Option<Seq<char>>,
    Option<Seq<char>>,
    Option<Seq<char>>,
) {
    auth_rec(split_lines(s), false, None, None, None)
}

/// An absent value falls back to the "(not found)" sentinel.
pub open spec fn or_not_found(x: Option<Seq<char>>) -> Seq<char> {
    match x {
        Some(v) => v,
        None => "(未找到)"@,
    }
}

/// The display form of the raw `auth_type` value: the two recognized codes map
/// to their localized labels, anything else passes through verbatim.
pub open spec fn user_type_display_of(at: Option<Seq<char>>) -> Seq<char> {
    match at {
        Some(v) => if v == "free"@ {
            "免费用户"@
        } else if v == "trial"@ {
            "试用用户"@
        } else {
            v
        },
        None => "(未找到)"@,
    }
}

/// View of an optional character vector.
pub open spec fn opt_chars(o: Option<Vec<char>>) -> Option<Seq<char>> {
    match o {
        Some(v) => Some(v@),
        None => None,
    }
}

/// Extracts the authorization record from full config text.
pub fn get_auth_info(content: &str) -> (r: AuthInfo)
    ensures
        r.machine_code@ == or_not_found(spec_auth_values(content@).0),
        r.user_type_display@ == user_type_display_of(spec_auth_values(content@).1),
        r.auth_end@ == or_not_found(spec_auth_values(content@).2),
{
    let chars = chars_of(content);
    let lines = split_lines_vec(&chars);
    let auth_lit = chars_of("[AUTH]");
    let mc_lit = chars_of("machine_code");
    let at_lit = chars_of("auth_type");
    let ae_lit = chars_of("auth_end");
    let ghost l: Seq<Seq<char>> = line_views(lines@);
    let mut in_auth = false;
    let mut mc: Option<Vec<char>> = None;
    let mut at: Option<Vec<char>> = None;
    let mut ae: Option<Vec<char>> = None;
    let mut i: usize = 0;
    assert(l.skip(0) =~= l);
    while i < lines.len()
        invariant
            i <= lines.len(),
            l == line_views(lines@),
            auth_lit@ == "[AUTH]"@,
            mc_lit@ == "machine_code"@,
            at_lit@ == "auth_type"@,
            ae_lit@ == "auth_end"@,
            auth_rec(l, false, None, None, None) == auth_rec(
                l.skip(i as int),
                in_auth,
                opt_chars(mc),
                opt_chars(at),
                opt_chars(ae),
            ),
        decreases lines.len() - i,
    {
        assert(l.skip(i as int)[0] == lines@[i as int]@);
        assert(l.skip(i as int).drop_first() =~= l.skip(i as int + 1));
        let t = trim_chars(&lines[i]);
        if t.len() >= 1 && t[0] == '[' {
            in_auth = eq_icase_chars(&t, &auth_lit);
        } else if in_auth && !line_is_skippable(&t) {
            match split_kv(&t) {
                Some((k, v)) => {
                    let kt = trim_chars(&k);
                    if eq_icase_chars(&kt, &mc_lit) {
                        mc = Some(trim_chars(&v));
                    } else if eq_icase_chars(&kt, &at_lit) {
                        at = Some(trim_chars(&v));
                    } else if eq_icase_chars(&kt, &ae_lit) {
                        ae = Some(trim_chars(&v));
                    }
                },
                None => {},
            }
        }
        i += 1;
    }
    assert(l.skip(l.len() as int) =~= Seq::<Seq<char>>::empty());
    let not_found = chars_of("(未找到)");
    let machine_code = match mc {
        Some(v) => string_of(&v),
        None => string_of(&not_found),
    };
    let free_lit = chars_of("free");
    let trial_lit = chars_of("trial");
    let user_type_display = match at {
        Some(v) => {
            if chars_eq(&v, &free_lit) {
                let lab = chars_of("免费用户");
                string_of(&lab)
            } else if chars_eq(&v, &trial_lit) {
                let lab = chars_of("试用用户");
                string_of(&lab)
            } else {
                string_of(&v)
            }
        },
        None => string_of(&not_found),
    };
    let auth_end = match ae {
        Some(v) => string_of(&v),
        None => string_of(&not_found),
    };
    AuthInfo { machine_code, user_type_display, auth_end }
}

} // verus!
