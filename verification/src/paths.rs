//! Settings-file resolution and the path-status decisions. Resolution is a
//! pure function of injected inputs: the caller supplies the working
//! directory, its parent, and which candidate files exist on disk; the
//! decisions here say which path is chosen, what status comes back, and
//! whether a write must follow.

use vstd::prelude::*;
use crate::text::{chars_of, string_of, push_chars};

verus! {

/// The outcome handed to the shell for the directory setting.
/// `error_msg` is empty exactly when `is_valid` is true.
pub struct TdxPathStatus {
    pub path: String,
    pub is_valid: bool,
    pub error_msg: String,
}

impl TdxPathStatus {
    /// The record's invariant: a message stands exactly when the path is
    /// invalid.
    pub open spec fn wf(self) -> bool {
        self.is_valid <==> self.error_msg@.len() == 0
    }
}

/// The views of a sequence of strings.
pub open spec fn str_views(v: Seq<String>) -> Seq<Seq<char>> {
    Seq::new(v.len(), |i: int| v[i]@)
}

/// The first candidate marked as existing, or the fallback.
pub open spec fn choose_rec(cands: Seq<Seq<char>>, exists: Seq<bool>, fallback: Seq<char>) -> Seq<
    char,
>
    decreases cands.len(),
{
    if cands.len() == 0 {
        fallback
    } else if exists[0] {
        cands[0]
    } else {
        choose_rec(cands.drop_first(), exists.drop_first(), fallback)
    }
}

/// The fallback write target: under the parent of the working directory when
/// one exists, else under the working directory itself.
pub open spec fn spec_fallback_path(cwd: Seq<char>, parent: Option<Seq<char>>) -> Seq<char> {
    match parent {
        Some(p) => p + "/tdx_settings.ini"@,
        None => cwd + "/tdx_settings.ini"@,
    }
}

/// View of an optional string.
pub open spec fn opt_str_view(o: Option<String>) -> Option<Seq<char>> {
    match o {
        Some(p) => Some(p@),
        None => None,
    }
}

/// Appends one path component behind a separator.
fn join_component(base: &str, name: &str) -> (r: String)
    ensures
        r@ == base@ + "/"@ + name@,
{
    let mut v = chars_of(base);
    let sep = chars_of("/");
    push_chars(&mut v, &sep);
    let n = chars_of(name);
    push_chars(&mut v, &n);
    string_of(&v)
}

/// The candidate settings-file locations, in the fixed priority order: the
/// working directory, its `resources` subdirectory, and its `..` entry.
pub fn settings_candidates(cwd: &str) -> (r: Vec<String>)
    ensures
        r@.len() == 3,
        r@[0]@ == cwd@ + "/tdx_settings.ini"@,
        r@[1]@ == cwd@ + "/resources/tdx_settings.ini"@,
        r@[2]@ == cwd@ + "/../tdx_settings.ini"@,
{
    let mut r: Vec<String> = Vec::new();
    r.push(join_component(cwd, "tdx_settings.ini"));
    r.push(join_component(cwd, "resources/tdx_settings.ini"));
    r.push(join_component(cwd, "../tdx_settings.ini"));
    proof {
        assert(cwd@ + "/"@ + "tdx_settings.ini"@ =~= cwd@ + "/tdx_settings.ini"@) by {
            reveal_strlit("/");
            reveal_strlit("tdx_settings.ini");
            reveal_strlit("/tdx_settings.ini");
        }
        assert(cwd@ + "/"@ + "resources/tdx_settings.ini"@ =~= cwd@
            + "/resources/tdx_settings.ini"@) by {
            reveal_strlit("/");
            reveal_strlit("resources/tdx_settings.ini");
            reveal_strlit("/resources/tdx_settings.ini");
        }
        assert(cwd@ + "/"@ + "../tdx_settings.ini"@ =~= cwd@ + "/../tdx_settings.ini"@) by {
            reveal_strlit("/");
            reveal_strlit("../tdx_settings.ini");
            reveal_strlit("/../tdx_settings.ini");
        }
    }
    r
}

/// Chooses the settings path: the first existing candidate, else the
/// fallback under the parent (or the working directory without one).
pub fn choose_settings_path(
    candidates: &Vec<String>,
    exists: &Vec<bool>,
    cwd: &str,
    parent: &Option<String>,
) -> (r: String)
    requires
        candidates@.len() == exists@.len(),
    ensures
        r@ == choose_rec(
            str_views(candidates@),
            exists@,
            spec_fallback_path(cwd@, opt_str_view(*parent)),
        ),
{
    let ghost cands: Seq<Seq<char>> = str_views(candidates@);
    let mut i: usize = 0;
    assert(cands.skip(0) =~= cands);
    assert(exists@.skip(0) =~= exists@);
    while i < candidates.len()
        invariant
            i <= candidates.len(),
            candidates@.len() == exists@.len(),
            cands == str_views(candidates@),
            forall|g: Seq<char>|
                choose_rec(cands, exists@, g) == choose_rec(
                    cands.skip(i as int),
                    exists@.skip(i as int),
                    g,
                ),
        decreases candidates.len() - i,
    {
        assert(cands.skip(i as int)[0] == candidates@[i as int]@);
        if exists[i] {
            let ghost g0: Seq<char> = spec_fallback_path(cwd@, opt_str_view(*parent));
            assert(choose_rec(cands.skip(i as int), exists@.skip(i as int), g0) == cands.skip(
                i as int,
            )[0]);
            let copy = chars_of(candidates[i].as_str());
            return string_of(&copy);
        }
        assert(cands.skip(i as int).drop_first() =~= cands.skip(i as int + 1));
        assert(exists@.skip(i as int).drop_first() =~= exists@.skip(i as int + 1));
        i += 1;
    }
    assert(cands.skip(cands.len() as int) =~= Seq::<Seq<char>>::empty());
    match parent {
        Some(p) => join_settings_name(p.as_str()),
        None => join_settings_name(cwd),
    }
}

/// The fallback file name behind a directory.
fn join_settings_name(dir: &str) -> (r: String)
    ensures
        r@ == dir@ + "/tdx_settings.ini"@,
{
    let mut v = chars_of(dir);
    let n = chars_of("/tdx_settings.ini");
    push_chars(&mut v, &n);
    string_of(&v)
}

/// The directory the shell works with: the saved value when one exists, else
/// the fixed default.
pub fn chosen_tdx_dir(saved: &Option<String>) -> (r: String)
    ensures
        saved matches Some(p) ==> r@ == p@,
        saved is None ==> r@ == "C:\\new_tdx"@,
{
    match saved {
        Some(p) => {
            let v = chars_of(p.as_str());
            string_of(&v)
        },
        None => {
            let v = chars_of("C:\\new_tdx");
            string_of(&v)
        },
    }
}

/// The outcome of the ensure-configured flow, given the chosen directory,
/// whether a saved value existed, and whether the required subfolder was
/// found under the chosen directory. An invalid directory comes back as an
/// empty value with the fixed diagnostic. The second component says whether
/// the chosen directory must now be persisted: only a validated default is
/// promoted to an explicit setting; nothing is written on an invalid path.
pub fn ensure_outcome(tdx_path: String, had_saved: bool, dir_is_valid: bool) -> (r: (
    TdxPathStatus,
    bool,
))
    ensures
        dir_is_valid ==> r.0.path@ == tdx_path@,
        !dir_is_valid ==> r.0.path@ == Seq::<char>::empty(),
        r.0.is_valid == dir_is_valid,
        dir_is_valid ==> r.0.error_msg@ == Seq::<char>::empty(),
        !dir_is_valid ==> r.0.error_msg@ == "默认或已存路径无效, 请手动设置"@,
        r.0.wf(),
        r.1 == (dir_is_valid && !had_saved),
{
    if dir_is_valid {
        let empty: Vec<char> = Vec::new();
        (
            TdxPathStatus { path: tdx_path, is_valid: true, error_msg: string_of(&empty) },
            !had_saved,
        )
    } else {
        let msg = chars_of("默认或已存路径无效, 请手动设置");
        proof {
            reveal_strlit("默认或已存路径无效, 请手动设置");
        }
        let none: Vec<char> = Vec::new();
        (TdxPathStatus { path: string_of(&none), is_valid: false, error_msg: string_of(&msg) }, false)
    }
}

/// The outcome of setting a new directory by hand, given whether the
/// candidate holds the required subfolder. The second component says whether
/// the candidate must be persisted: exactly when it is valid, so an invalid
/// candidate leaves the settings file untouched.
pub fn set_path_outcome(new_path: String, candidate_is_valid: bool) -> (r: (TdxPathStatus, bool))
    ensures
        r.0.path@ == new_path@,
        r.0.is_valid == candidate_is_valid,
        candidate_is_valid ==> r.0.error_msg@ == Seq::<char>::empty(),
        !candidate_is_valid ==> r.0.error_msg@
            == "错误：您选择的路径不合法！请确保所选目录下存在 T0002\\signals 文件夹。"@,
        r.0.wf(),
        r.1 == candidate_is_valid,
{
    if candidate_is_valid {
        let empty: Vec<char> = Vec::new();
        (TdxPathStatus { path: new_path, is_valid: true, error_msg: string_of(&empty) }, true)
    } else {
        let msg = chars_of("错误：您选择的路径不合法！请确保所选目录下存在 T0002\\signals 文件夹。");
        proof {
            reveal_strlit("错误：您选择的路径不合法！请确保所选目录下存在 T0002\\signals 文件夹。");
        }
        (TdxPathStatus { path: new_path, is_valid: false, error_msg: string_of(&msg) }, false)
    }
}

} // verus!
