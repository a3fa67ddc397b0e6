//! Project resolution.
//!
//! A file path is mapped to an owning project: the file extension picks
//! the language ecosystem, and the nearest enclosing directory with that
//! ecosystem's manifest marker is the project root.  Directory walking
//! is pure here: the caller probes the filesystem for each candidate
//! directory (or asks the package manager, for the web ecosystem) and
//! passes the answers in, so the closest-match selection is verified for
//! every possible probe outcome.
//!
//! Paths are treated as Unix-style strings with `/` separators; identity
//! is exact string equality, with no normalization.

use vstd::prelude::*;

verus! {

use crate::chars::{
    chars_to_string, ends_with_chars, match_at, str_to_chars, subrange_chars, trim_chars,
    trim_spec,
};

/// Supported languages/ecosystems.
#[derive(Debug, Clone, Copy, PartialEq, Eq, Structural)]
pub enum Lang {
    JavaScript,
    Rust,
    Python,
    Java,
    Go,
}

/// Project information for a detected language/ecosystem.
#[derive(Debug, Clone)]
pub struct ProjectInfo {
    /// Root directory of the project.
    pub root: String,
    /// Detected language/ecosystem.
    pub lang: Lang,
}

/// `s` ends with the suffix `suf`.
pub open spec fn ends_with(s: Seq<char>, suf: Seq<char>) -> bool {
    match_at(s, suf, s.len() - suf.len())
}

/// The language detected from a file path's extension.
pub open spec fn detect_lang_spec(fp: Seq<char>) -> Option<Lang> {
    if ends_with(fp, ".js"@) || ends_with(fp, ".jsx"@) || ends_with(fp, ".ts"@) || ends_with(
        fp,
        ".tsx"@,
    ) || ends_with(fp, ".mjs"@) || ends_with(fp, ".cjs"@) {
        Some(Lang::JavaScript)
    } else if ends_with(fp, ".rs"@) {
        Some(Lang::Rust)
    } else if ends_with(fp, ".py"@) || ends_with(fp, ".pyi"@) {
        Some(Lang::Python)
    } else if ends_with(fp, ".java"@) {
        Some(Lang::Java)
    } else if ends_with(fp, ".go"@) {
        Some(Lang::Go)
    } else {
        None
    }
}

/// Detect the language from the file extension.
pub fn detect_lang(file_path: &str) -> (r: Option<Lang>)
    ensures
        r == detect_lang_spec(file_path@),
{
    let v = str_to_chars(file_path);
    let e_js = str_to_chars(".js");
    let e_jsx = str_to_chars(".jsx");
    let e_ts = str_to_chars(".ts");
    let e_tsx = str_to_chars(".tsx");
    let e_mjs = str_to_chars(".mjs");
    let e_cjs = str_to_chars(".cjs");
    if ends_with_chars(&v, &e_js) || ends_with_chars(&v, &e_jsx) || ends_with_chars(&v, &e_ts)
        || ends_with_chars(&v, &e_tsx) || ends_with_chars(&v, &e_mjs) || ends_with_chars(
        &v,
        &e_cjs,
    ) {
        return Some(Lang::JavaScript);
    }
    let e_rs = str_to_chars(".rs");
    if ends_with_chars(&v, &e_rs) {
        return Some(Lang::Rust);
    }
    let e_py = str_to_chars(".py");
    let e_pyi = str_to_chars(".pyi");
    if ends_with_chars(&v, &e_py) || ends_with_chars(&v, &e_pyi) {
        return Some(Lang::Python);
    }
    let e_java = str_to_chars(".java");
    if ends_with_chars(&v, &e_java) {
        return Some(Lang::Java);
    }
    let e_go = str_to_chars(".go");
    if ends_with_chars(&v, &e_go) {
        return Some(Lang::Go);
    }
    None
}

/// Index of the last `/` in `s`, or -1.
pub open spec fn last_slash(s: Seq<char>) -> int
    decreases s.len(),
{
    if s.len() == 0 {
        -1
    } else if s.last() == '/' {
        s.len() - 1
    } else {
        last_slash(s.drop_last())
    }
}

/// The directory part of a path: everything before the last `/` (the
/// root `/` for a top-level entry, empty for a bare name).
pub open spec fn parent_dir_spec(p: Seq<char>) -> Seq<char> {
    let i = last_slash(p);
    if i < 0 {
        Seq::empty()
    } else if i == 0 {
        seq!['/']
    } else {
        p.subrange(0, i)
    }
}

pub proof fn lemma_last_slash_props(s: Seq<char>)
    ensures
        last_slash(s) >= 0 ==> last_slash(s) < s.len() && s[last_slash(s)] == '/' && forall|j: int|
            last_slash(s) < j < s.len() ==> s[j] != '/',
        last_slash(s) < 0 ==> forall|j: int| 0 <= j < s.len() ==> s[j] != '/',
    decreases s.len(),
{
    if s.len() == 0 {
    } else if s.last() == '/' {
    } else {
        lemma_last_slash_props(s.drop_last());
        assert forall|j: int| 0 <= j < s.len() - 1 implies s.drop_last()[j] == s[j] by {}
    }
}

pub proof fn lemma_last_slash_at(s: Seq<char>, i: int)
    requires
        0 <= i < s.len(),
        s[i] == '/',
        forall|j: int| i < j < s.len() ==> s[j] != '/',
    ensures
        last_slash(s) == i,
    decreases s.len(),
{
    if s.last() == '/' {
        if i < s.len() - 1 {
            assert(s[s.len() - 1] != '/');
        }
    } else {
        assert(i < s.len() - 1);
        assert(s.drop_last()[i] == s[i]);
        lemma_last_slash_at(s.drop_last(), i);
    }
}

pub proof fn lemma_no_slash(s: Seq<char>)
    requires
        forall|j: int| 0 <= j < s.len() ==> s[j] != '/',
    ensures
        last_slash(s) == -1,
    decreases s.len(),
{
    if s.len() > 0 {
        lemma_no_slash(s.drop_last());
    }
}

/// The directory part of a path, as characters.
fn parent_dir_chars(p: &Vec<char>) -> (r: Vec<char>)
    ensures
        r@ == parent_dir_spec(p@),
{
    let mut i: usize = p.len();
    while i > 0
        invariant
            i <= p@.len(),
            forall|j: int| i <= j < p@.len() ==> p@[j] != '/',
        decreases i,
    {
        if p[i - 1] == '/' {
            proof {
                lemma_last_slash_at(p@, i - 1);
            }
            if i - 1 == 0 {
                let mut r: Vec<char> = Vec::new();
                r.push('/');
                proof {
                    assert(r@ =~= seq!['/']);
                }
                return r;
            }
            return subrange_chars(p, 0, i - 1);
        }
        i -= 1;
    }
    proof {
        lemma_no_slash(p@);
    }
    let r: Vec<char> = Vec::new();
    proof {
        assert(r@ =~= Seq::<char>::empty());
    }
    r
}

/// The directory part of a file path.
pub fn parent_dir(file_path: &str) -> (r: String)
    ensures
        r@ == parent_dir_spec(file_path@),
{
    let v = str_to_chars(file_path);
    let d = parent_dir_chars(&v);
    chars_to_string(&d)
}

/// The candidate project directories for a directory: itself, then each
/// parent up to the filesystem root (or up to an empty relative prefix).
pub open spec fn ancestors_spec(d: Seq<char>) -> Seq<Seq<char>>
    decreases d.len(),
    via ancestors_spec_decreases
{
    if d.len() == 0 || d == seq!['/'] {
        seq![d]
    } else {
        seq![d] + ancestors_spec(parent_dir_spec(d))
    }
}

#[via_fn]
proof fn ancestors_spec_decreases(d: Seq<char>) {
    if !(d.len() == 0 || d == seq!['/']) {
        lemma_last_slash_props(d);
        if last_slash(d) == 0 {
            if d.len() == 1 {
                assert(d =~= seq!['/']);
            }
        }
    }
}

/// Candidate project directories for a file: its directory, then each
/// ancestor, nearest first.
#[verifier::loop_isolation(false)]
pub fn ancestor_dirs(file_path: &str) -> (r: Vec<String>)
    ensures
        r.deep_view() == ancestors_spec(parent_dir_spec(file_path@)),
{
    let fv = str_to_chars(file_path);
    let mut cur = parent_dir_chars(&fv);
    let ghost d0 = cur@;
    let mut r: Vec<String> = Vec::new();
    proof {
        assert(r.deep_view() =~~= Seq::<Seq<char>>::empty());
        assert(Seq::<Seq<char>>::empty() + ancestors_spec(d0) =~= ancestors_spec(d0));
    }
    loop
        invariant
            ancestors_spec(d0) == r.deep_view() + ancestors_spec(cur@),
        decreases cur@.len() + 1,
    {
        let ghost prev = cur@;
        let ghost old_dv = r.deep_view();
        let s = chars_to_string(&cur);
        r.push(s);
        proof {
            assert(r.deep_view() =~~= old_dv + seq![prev]);
        }
        let is_root = cur.len() == 1 && {
            let c0 = cur[0];
            c0 == '/'
        };
        if cur.len() == 0 || is_root {
            proof {
                if cur@.len() == 1 && cur@[0] == '/' {
                    assert(cur@ =~= seq!['/']);
                }
                assert(ancestors_spec(prev) == seq![prev]);
                assert(ancestors_spec(d0) == old_dv + seq![prev]);
                assert(ancestors_spec(d0) =~~= r.deep_view());
            }
            return r;
        }
        proof {
            assert(!(prev.len() == 0 || prev == seq!['/'])) by {
                if prev == seq!['/'] {
                    assert(prev.len() == 1 && prev[0] == '/');
                }
            }
            assert(ancestors_spec(prev) == seq![prev] + ancestors_spec(parent_dir_spec(prev)));
            assert(old_dv + (seq![prev] + ancestors_spec(parent_dir_spec(prev))) =~= (old_dv
                + seq![prev]) + ancestors_spec(parent_dir_spec(prev)));
            lemma_last_slash_props(prev);
            if last_slash(prev) == 0 && prev.len() == 1 {
                assert(prev =~= seq!['/']);
            }
            assert(parent_dir_spec(prev).len() < prev.len());
        }
        cur = parent_dir_chars(&cur);
    }
}

/// The manifest marker filenames for an ecosystem.  The web ecosystem
/// has none: its package manager locates the root itself.
pub fn lang_markers(lang: Lang) -> (r: Vec<String>)
    ensures
        lang == Lang::JavaScript ==> r.deep_view() =~= Seq::<Seq<char>>::empty(),
        lang == Lang::Rust ==> r.deep_view() =~= seq!["Cargo.toml"@],
        lang == Lang::Python ==> r.deep_view() =~= seq![
            "pyproject.toml"@,
            "setup.py"@,
            "setup.cfg"@,
            "requirements.txt"@,
        ],
        lang == Lang::Java ==> r.deep_view() =~= seq![
            "pom.xml"@,
            "build.gradle"@,
            "build.gradle.kts"@,
        ],
        lang == Lang::Go ==> r.deep_view() =~= seq!["go.mod"@],
{
    let mut r: Vec<String> = Vec::new();
    match lang {
        Lang::JavaScript => {},
        Lang::Rust => {
            r.push(String::from_str("Cargo.toml"));
        },
        Lang::Python => {
            r.push(String::from_str("pyproject.toml"));
            r.push(String::from_str("setup.py"));
            r.push(String::from_str("setup.cfg"));
            r.push(String::from_str("requirements.txt"));
        },
        Lang::Java => {
            r.push(String::from_str("pom.xml"));
            r.push(String::from_str("build.gradle"));
            r.push(String::from_str("build.gradle.kts"));
        },
        Lang::Go => {
            r.push(String::from_str("go.mod"));
        },
    }
    proof {
        match lang {
            Lang::JavaScript => assert(r.deep_view() =~~= Seq::<Seq<char>>::empty()),
            Lang::Rust => assert(r.deep_view() =~~= seq!["Cargo.toml"@]),
            Lang::Python => assert(r.deep_view() =~~= seq![
                "pyproject.toml"@,
                "setup.py"@,
                "setup.cfg"@,
                "requirements.txt"@,
            ]),
            Lang::Java => assert(r.deep_view() =~~= seq![
                "pom.xml"@,
                "build.gradle"@,
                "build.gradle.kts"@,
            ]),
            Lang::Go => assert(r.deep_view() =~~= seq!["go.mod"@]),
        }
    }
    r
}

/// The first (nearest) directory whose probe found a marker.
pub open spec fn first_marked_spec(dirs: Seq<Seq<char>>, marked: Seq<bool>) -> Option<Seq<char>>
    decreases dirs.len(),
{
    if dirs.len() == 0 || marked.len() == 0 {
        None
    } else if marked[0] {
        Some(dirs[0])
    } else {
        first_marked_spec(dirs.drop_first(), marked.drop_first())
    }
}

/// Select the nearest candidate directory whose probe succeeded.
/// `marked[i]` answers whether `dirs[i]` holds one of the ecosystem's
/// marker files; extra flags are ignored, missing flags count as false.
pub fn find_marker_root(dirs: &Vec<String>, marked: &Vec<bool>) -> (r: Option<String>)
    ensures
        match r {
            Some(s) => first_marked_spec(dirs.deep_view(), marked@) == Some(s@),
            None => first_marked_spec(dirs.deep_view(), marked@) is None,
        },
{
    let n = if dirs.len() < marked.len() {
        dirs.len()
    } else {
        marked.len()
    };
    proof {
        assert(dirs.deep_view().skip(0) =~= dirs.deep_view());
        assert(marked@.skip(0) =~= marked@);
    }
    let mut i: usize = 0;
    while i < n
        invariant
            i <= n,
            n <= dirs@.len(),
            n <= marked@.len(),
            n == if dirs@.len() < marked@.len() {
                dirs@.len()
            } else {
                marked@.len()
            },
            dirs.deep_view().len() == dirs@.len(),
            first_marked_spec(dirs.deep_view(), marked@) == first_marked_spec(
                dirs.deep_view().skip(i as int),
                marked@.skip(i as int),
            ),
        decreases n - i,
    {
        proof {
            assert(dirs.deep_view().skip(i as int)[0] == dirs.deep_view()[i as int]);
            assert(marked@.skip(i as int)[0] == marked@[i as int]);
        }
        if marked[i] {
            let s = dirs[i].clone();
            proof {
                assert(s@ == dirs.deep_view()[i as int]);
            }
            return Some(s);
        }
        proof {
            assert(dirs.deep_view().skip(i as int).drop_first() =~= dirs.deep_view().skip(i + 1));
            assert(marked@.skip(i as int).drop_first() =~= marked@.skip(i + 1));
        }
        i += 1;
    }
    proof {
        assert(dirs.deep_view().skip(n as int).len() == dirs@.len() - n);
        if dirs@.len() < marked@.len() {
            assert(dirs.deep_view().skip(n as int).len() == 0);
        } else {
            assert(marked@.skip(n as int).len() == 0);
        }
    }
    None
}

/// Between collect calls the probe answers decide resolution: if a
/// nearer candidate and a farther one both hold a marker, the nearer
/// one is selected (monorepo shadowing).
pub proof fn lemma_nearest_marker_wins(dirs: Seq<Seq<char>>, marked: Seq<bool>, i: int, j: int)
    requires
        0 <= i < j,
        j < dirs.len(),
        j < marked.len(),
        marked[i],
        marked[j],
        forall|k: int| 0 <= k < i ==> !marked[k],
    ensures
        first_marked_spec(dirs, marked) == Some(dirs[i]),
    decreases i,
{
    if i == 0 {
    } else {
        assert(!marked[0]);
        assert forall|k: int| 0 <= k < i - 1 implies !marked.drop_first()[k] by {
            assert(marked.drop_first()[k] == marked[k + 1]);
        }
        assert(marked.drop_first()[i - 1] == marked[i]);
        assert(marked.drop_first()[j - 1] == marked[j]);
        lemma_nearest_marker_wins(dirs.drop_first(), marked.drop_first(), i - 1, j - 1);
        assert(dirs.drop_first()[i - 1] == dirs[i]);
    }
}

/// The project root the package manager reported: its trimmed standard
/// output, on success, if non-empty.
pub fn npm_prefix_root(stdout: &str, success: bool) -> (r: Option<String>)
    ensures
        match r {
            Some(s) => success && trim_spec(stdout@).len() > 0 && s@ == trim_spec(stdout@),
            None => !success || trim_spec(stdout@).len() == 0,
        },
{
    if !success {
        return None;
    }
    let v = str_to_chars(stdout);
    let t = trim_chars(&v);
    if t.len() == 0 {
        return None;
    }
    Some(chars_to_string(&t))
}

/// Resolve the project that owns `file_path`.  The caller supplies the
/// probe answers: `marked[i]` says whether the `i`-th candidate of
/// [`ancestor_dirs`] holds one of the ecosystem's markers, and
/// `npm_root` is the package manager's answer (used only for the web
/// ecosystem, where the marker walk does not apply).
pub fn find_project_root(file_path: &str, marked: &Vec<bool>, npm_root: Option<String>) -> (r:
    Option<ProjectInfo>)
    ensures
        detect_lang_spec(file_path@) is None ==> r is None,
        detect_lang_spec(file_path@) == Some(Lang::JavaScript) ==> match r {
            Some(pi) => pi.lang == Lang::JavaScript && (npm_root matches Some(nr) && pi.root@
                == nr@),
            None => npm_root is None,
        },
        (detect_lang_spec(file_path@) matches Some(l) && l != Lang::JavaScript) ==> match r {
            Some(pi) => Some(pi.lang) == detect_lang_spec(file_path@) && first_marked_spec(
                ancestors_spec(parent_dir_spec(file_path@)),
                marked@,
            ) == Some(pi.root@),
            None => first_marked_spec(
                ancestors_spec(parent_dir_spec(file_path@)),
                marked@,
            ) is None,
        },
{
    let lang = match detect_lang(file_path) {
        None => {
            return None;
        },
        Some(l) => l,
    };
    if let Lang::JavaScript = lang {
        return match npm_root {
            Some(root) => Some(ProjectInfo { root, lang }),
            None => None,
        };
    }
    let dirs = ancestor_dirs(file_path);
    match find_marker_root(&dirs, marked) {
        Some(root) => Some(ProjectInfo { root, lang }),
        None => None,
    }
}

} // verus!
