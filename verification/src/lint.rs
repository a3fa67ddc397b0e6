//! Lint dispatch decisions.
//!
//! For each ecosystem an ordered list of candidate tools is tried; the
//! first one present is used exclusively.  The caller runs the chosen
//! tool and hands its captured output back; everything decided from that
//! output — argument lists, lenient-mode overlays, availability marker
//! checks, multi-file output filtering, and the final decision text — is
//! verified here.

use vstd::prelude::*;

verus! {

use crate::chars::{
    chars_to_string, contains_chars, contains_seq, dec_chars, dec_spec, join_chars, join_spec,
    match_at, push_str_chars, push_vec_chars, split_lines, str_to_chars, subrange_chars,
    lines_spec, starts_with_chars, eq_chars,
};
use crate::project::{last_slash, lemma_last_slash_at, lemma_no_slash};
use crate::response::{continue_result, continue_result_spec, escape_chars, lint_block_spec};

/// The project root as a directory prefix: with exactly one trailing
/// separator.
pub open spec fn root_prefix_spec(root: Seq<char>) -> Seq<char> {
    if root.len() > 0 && root.last() == '/' {
        root
    } else {
        root.push('/')
    }
}

/// The path relative to the prefix, when the path begins with it.
pub open spec fn strip_prefix_spec(fp: Seq<char>, pre: Seq<char>) -> Option<Seq<char>> {
    if match_at(fp, pre, 0) {
        Some(fp.subrange(pre.len() as int, fp.len() as int))
    } else {
        None
    }
}

/// The paths of `fps` that lie under the prefix, stripped of it.
pub open spec fn relative_paths_spec(fps: Seq<Seq<char>>, pre: Seq<char>) -> Seq<Seq<char>>
    decreases fps.len(),
{
    if fps.len() == 0 {
        Seq::empty()
    } else {
        (match strip_prefix_spec(fps[0], pre) {
            Some(s) => seq![s],
            None => Seq::empty(),
        }) + relative_paths_spec(fps.drop_first(), pre)
    }
}

/// A path with its trailing separators removed.
pub open spec fn strip_trailing_slashes(p: Seq<char>) -> Seq<char>
    decreases p.len(),
{
    if p.len() > 0 && p.last() == '/' {
        strip_trailing_slashes(p.drop_last())
    } else {
        p
    }
}

/// The bare filename of a Unix-style path: its final component, with
/// trailing separators ignored.  Where the path has no such component
/// (it is empty, all separators, or ends in a parent reference `..`),
/// the whole path stands in as the fallback.
pub open spec fn file_name_spec(fp: Seq<char>) -> Seq<char> {
    let t = strip_trailing_slashes(fp);
    let i = last_slash(t);
    let name = if i < 0 {
        t
    } else {
        t.subrange(i + 1, t.len() as int)
    };
    if name.len() == 0 || name == seq!['.', '.'] {
        fp
    } else {
        name
    }
}

/// The bare filenames of the requested paths.
pub open spec fn file_names_spec(fps: Seq<Seq<char>>) -> Seq<Seq<char>> {
    fps.map_values(|fp: Seq<char>| file_name_spec(fp))
}

/// Some pattern of `pats` occurs in `line`.
pub open spec fn any_contains(line: Seq<char>, pats: Seq<Seq<char>>) -> bool {
    exists|i: int| 0 <= i < pats.len() && contains_seq(line, pats[i])
}

/// A line is relevant when it mentions a requested path: the exact
/// input path first, else the path relative to the project root, else
/// the bare filename (a known source of false positives between
/// same-named files in different subtrees, kept deliberately).
pub open spec fn line_matches_spec(
    line: Seq<char>,
    fps: Seq<Seq<char>>,
    rels: Seq<Seq<char>>,
    names: Seq<Seq<char>>,
) -> bool {
    any_contains(line, fps) || any_contains(line, rels) || any_contains(line, names)
}

/// The relevant lines, in order.
pub open spec fn filter_lines_spec(
    ls: Seq<Seq<char>>,
    fps: Seq<Seq<char>>,
    rels: Seq<Seq<char>>,
    names: Seq<Seq<char>>,
) -> Seq<Seq<char>>
    decreases ls.len(),
{
    if ls.len() == 0 {
        Seq::empty()
    } else {
        (if line_matches_spec(ls[0], fps, rels, names) {
            seq![ls[0]]
        } else {
            Seq::empty()
        }) + filter_lines_spec(ls.drop_first(), fps, rels, names)
    }
}

/// The filtered tool output for a set of requested files: the relevant
/// lines of the combined standard error and standard output, rejoined.
pub open spec fn filter_clippy_spec(
    stdout: Seq<char>,
    stderr: Seq<char>,
    fps: Seq<Seq<char>>,
    root: Seq<char>,
) -> Seq<char> {
    let combined = stderr + seq!['\n'] + stdout;
    let pre = root_prefix_spec(root);
    let rels = relative_paths_spec(fps, pre);
    let names = file_names_spec(fps);
    join_spec(filter_lines_spec(lines_spec(combined), fps, rels, names), seq!['\n'])
}

/// Every kept line is relevant, and every relevant line is kept: the
/// filtered output is the union of the lines matching some requested
/// file, with no line that matches none.
pub proof fn lemma_filter_lines_exact(
    ls: Seq<Seq<char>>,
    fps: Seq<Seq<char>>,
    rels: Seq<Seq<char>>,
    names: Seq<Seq<char>>,
)
    ensures
        forall|i: int| 0 <= i < filter_lines_spec(ls, fps, rels, names).len()
            ==> line_matches_spec(#[trigger] filter_lines_spec(ls, fps, rels, names)[i], fps, rels, names),
        forall|j: int| 0 <= j < ls.len() && line_matches_spec(ls[j], fps, rels, names)
            ==> filter_lines_spec(ls, fps, rels, names).contains(#[trigger] ls[j]),
    decreases ls.len(),
{
    if ls.len() == 0 {
    } else {
        lemma_filter_lines_exact(ls.drop_first(), fps, rels, names);
        let r = filter_lines_spec(ls, fps, rels, names);
        let rr = filter_lines_spec(ls.drop_first(), fps, rels, names);
        assert forall|i: int| 0 <= i < r.len() implies line_matches_spec(
            r[i],
            fps,
            rels,
            names,
        ) by {
            if line_matches_spec(ls[0], fps, rels, names) {
                if i > 0 {
                    assert(r[i] == rr[i - 1]);
                }
            } else {
                assert(r[i] == rr[i]);
            }
        }
        assert forall|j: int| 0 <= j < ls.len() && line_matches_spec(ls[j], fps, rels, names)
            implies r.contains(ls[j]) by {
            if j == 0 {
                assert(r[0] == ls[0]);
            } else {
                assert(ls.drop_first()[j - 1] == ls[j]);
                assert(rr.contains(ls[j]));
                let k = choose|k: int| 0 <= k < rr.len() && rr[k] == ls[j];
                if line_matches_spec(ls[0], fps, rels, names) {
                    assert(r[k + 1] == rr[k]);
                } else {
                    assert(r[k] == rr[k]);
                }
            }
        }
    }
}

proof fn lemma_strip_trailing_at(p: Seq<char>, e: int)
    requires
        0 <= e <= p.len(),
        forall|j: int| e <= j < p.len() ==> p[j] == '/',
        e == 0 || p[e - 1] != '/',
    ensures
        strip_trailing_slashes(p) == p.subrange(0, e),
    decreases p.len(),
{
    if p.len() > e {
        assert(p.last() == '/');
        assert forall|j: int| e <= j < p.len() - 1 implies p.drop_last()[j] == '/' by {
            assert(p.drop_last()[j] == p[j]);
        }
        if e > 0 {
            assert(p.drop_last()[e - 1] == p[e - 1]);
        }
        lemma_strip_trailing_at(p.drop_last(), e);
        assert(p.drop_last().subrange(0, e) =~= p.subrange(0, e));
    } else {
        assert(p.subrange(0, e) =~= p);
    }
}

/// The final path component of `fp`.
#[verifier::loop_isolation(false)]
fn file_name_chars(fp: &Vec<char>) -> (r: Vec<char>)
    ensures
        r@ == file_name_spec(fp@),
{
    let mut end: usize = fp.len();
    while end > 0 && fp[end - 1] == '/'
        invariant
            end <= fp@.len(),
            forall|j: int| end <= j < fp@.len() ==> fp@[j] == '/',
        decreases end,
    {
        end -= 1;
    }
    proof {
        lemma_strip_trailing_at(fp@, end as int);
    }
    let ghost t = fp@.subrange(0, end as int);
    let mut i: usize = end;
    while i > 0 && fp[i - 1] != '/'
        invariant
            i <= end,
            forall|j: int| i <= j < end ==> fp@[j] != '/',
        decreases i,
    {
        i -= 1;
    }
    proof {
        assert forall|j: int| i <= j < end implies t[j] != '/' by {
            assert(t[j] == fp@[j]);
        }
        if i > 0 {
            assert(t[i - 1] == fp@[i - 1]);
            lemma_last_slash_at(t, i - 1);
            assert(t.subrange(i as int, end as int) =~= fp@.subrange(i as int, end as int));
        } else {
            lemma_no_slash(t);
        }
    }
    if end == i {
        proof {
            assert(fp@.subrange(0, fp@.len() as int) =~= fp@);
        }
        return subrange_chars(fp, 0, fp.len());
    }
    if end - i == 2 && fp[i] == '.' && fp[i + 1] == '.' {
        proof {
            assert(fp@.subrange(i as int, end as int) =~= seq!['.', '.']);
            assert(fp@.subrange(0, fp@.len() as int) =~= fp@);
        }
        return subrange_chars(fp, 0, fp.len());
    }
    proof {
        let name = fp@.subrange(i as int, end as int);
        if name == seq!['.', '.'] {
            assert(end - i == 2);
            assert(name[0] == fp@[i as int]);
            assert(name[1] == fp@[i + 1]);
            assert(false);
        }
        if i == 0 {
            assert(fp@.subrange(0, end as int) == t);
        }
    }
    subrange_chars(fp, i, end)
}

/// Run the multi-file filter over one clippy invocation's output.
#[verifier::loop_isolation(false)]
pub fn filter_clippy_output_multi(
    stdout: &str,
    stderr: &str,
    file_paths: &Vec<String>,
    project_root: &str,
) -> (r: String)
    ensures
        r@ == filter_clippy_spec(stdout@, stderr@, file_paths.deep_view(), project_root@),
{
    let ghost fps = file_paths.deep_view();
    let mut combined: Vec<char> = Vec::new();
    push_str_chars(&mut combined, stderr);
    combined.push('\n');
    push_str_chars(&mut combined, stdout);
    proof {
        assert(combined@ =~= stderr@ + seq!['\n'] + stdout@);
    }
    let mut pre = str_to_chars(project_root);
    let needs_sep = pre.len() == 0 || {
        let c = pre[pre.len() - 1];
        c != '/'
    };
    if needs_sep {
        pre.push('/');
    }
    proof {
        assert(pre@ == root_prefix_spec(project_root@));
    }
    let mut fpvs: Vec<Vec<char>> = Vec::new();
    let mut i: usize = 0;
    while i < file_paths.len()
        invariant
            i <= file_paths@.len(),
            fpvs.deep_view() == fps.take(i as int),
        decreases file_paths@.len() - i,
    {
        let ghost old_dv = fpvs.deep_view();
        fpvs.push(str_to_chars(file_paths[i].as_str()));
        i += 1;
        proof {
            assert(fpvs.deep_view() =~~= fps.take(i as int));
        }
    }
    proof {
        assert(fps.take(file_paths@.len() as int) =~= fps);
    }
    let mut rels: Vec<Vec<char>> = Vec::new();
    let mut i: usize = 0;
    proof {
        assert(fps.skip(0) =~= fps);
        assert(Seq::<Seq<char>>::empty() + relative_paths_spec(fps, pre@) =~= relative_paths_spec(
            fps,
            pre@,
        ));
        assert(rels.deep_view() =~~= Seq::<Seq<char>>::empty());
    }
    while i < fpvs.len()
        invariant
            i <= fpvs@.len(),
            fpvs.deep_view() == fps,
            fpvs@.len() == fps.len(),
            relative_paths_spec(fps, pre@) == rels.deep_view() + relative_paths_spec(
                fps.skip(i as int),
                pre@,
            ),
        decreases fpvs@.len() - i,
    {
        proof {
            assert(fps.skip(i as int)[0] == fps[i as int]);
            assert(fps.skip(i as int).drop_first() =~= fps.skip(i + 1));
            assert(fps[i as int] == fpvs@[i as int].deep_view());
            assert(fpvs@[i as int].deep_view() =~= fpvs@[i as int]@);
        }
        let fpv = &fpvs[i];
        if starts_with_chars(fpv, &pre) {
            let s = subrange_chars(fpv, pre.len(), fpv.len());
            let ghost old_dv = rels.deep_view();
            rels.push(s);
            proof {
                assert(rels.deep_view() =~~= old_dv.push(
                    strip_prefix_spec(fps[i as int], pre@)->0,
                ));
                assert(old_dv.push(strip_prefix_spec(fps[i as int], pre@)->0)
                    + relative_paths_spec(fps.skip(i + 1), pre@) =~= old_dv + (seq![
                    strip_prefix_spec(fps[i as int], pre@)->0,
                ] + relative_paths_spec(fps.skip(i + 1), pre@)));
            }
        } else {
            proof {
                assert(Seq::<Seq<char>>::empty() + relative_paths_spec(fps.skip(i + 1), pre@)
                    =~= relative_paths_spec(fps.skip(i + 1), pre@));
            }
        }
        i += 1;
    }
    proof {
        assert(fps.skip(fps.len() as int).len() == 0);
        assert(rels.deep_view() + relative_paths_spec(fps.skip(fps.len() as int), pre@)
            =~= rels.deep_view());
    }
    let mut names: Vec<Vec<char>> = Vec::new();
    let mut i: usize = 0;
    while i < fpvs.len()
        invariant
            i <= fpvs@.len(),
            fpvs.deep_view() == fps,
            fpvs@.len() == fps.len(),
            names.deep_view() == file_names_spec(fps).take(i as int),
        decreases fpvs@.len() - i,
    {
        proof {
            assert(fps[i as int] == fpvs@[i as int].deep_view());
            assert(fpvs@[i as int].deep_view() =~= fpvs@[i as int]@);
            assert(file_names_spec(fps)[i as int] == file_name_spec(fps[i as int]));
        }
        let nm = file_name_chars(&fpvs[i]);
        names.push(nm);
        i += 1;
        proof {
            assert(names.deep_view() =~~= file_names_spec(fps).take(i as int));
        }
    }
    proof {
        assert(file_names_spec(fps).take(fps.len() as int) =~= file_names_spec(fps));
    }
    let ls = split_lines(&combined);
    let ghost all_lines = lines_spec(combined@);
    let mut kept: Vec<Vec<char>> = Vec::new();
    let mut i: usize = 0;
    proof {
        assert(all_lines.skip(0) =~= all_lines);
        assert(Seq::<Seq<char>>::empty() + filter_lines_spec(
            all_lines,
            fps,
            rels.deep_view(),
            names.deep_view(),
        ) =~= filter_lines_spec(all_lines, fps, rels.deep_view(), names.deep_view()));
        assert(kept.deep_view() =~~= Seq::<Seq<char>>::empty());
    }
    while i < ls.len()
        invariant
            i <= ls@.len(),
            ls.deep_view() == all_lines,
            ls@.len() == all_lines.len(),
            filter_lines_spec(all_lines, fps, rels.deep_view(), names.deep_view())
                == kept.deep_view() + filter_lines_spec(
                all_lines.skip(i as int),
                fps,
                rels.deep_view(),
                names.deep_view(),
            ),
        decreases ls@.len() - i,
    {
        proof {
            assert(all_lines.skip(i as int)[0] == all_lines[i as int]);
            assert(all_lines.skip(i as int).drop_first() =~= all_lines.skip(i + 1));
            assert(all_lines[i as int] == ls@[i as int].deep_view());
            assert(ls@[i as int].deep_view() =~= ls@[i as int]@);
            assert(fpvs.deep_view() =~~= fps);
        }
        let line = &ls[i];
        let m = any_contains_chars(line, &fpvs) || any_contains_chars(line, &rels)
            || any_contains_chars(line, &names);
        if m {
            let ghost old_dv = kept.deep_view();
            let line_copy = subrange_chars(line, 0, line.len());
            kept.push(line_copy);
            proof {
                assert(kept.deep_view() =~~= old_dv.push(all_lines[i as int]));
                assert(old_dv.push(all_lines[i as int]) + filter_lines_spec(
                    all_lines.skip(i + 1),
                    fps,
                    rels.deep_view(),
                    names.deep_view(),
                ) =~= old_dv + (seq![all_lines[i as int]] + filter_lines_spec(
                    all_lines.skip(i + 1),
                    fps,
                    rels.deep_view(),
                    names.deep_view(),
                )));
            }
        } else {
            proof {
                assert(Seq::<Seq<char>>::empty() + filter_lines_spec(
                    all_lines.skip(i + 1),
                    fps,
                    rels.deep_view(),
                    names.deep_view(),
                ) =~= filter_lines_spec(
                    all_lines.skip(i + 1),
                    fps,
                    rels.deep_view(),
                    names.deep_view(),
                ));
            }
        }
        i += 1;
    }
    proof {
        assert(all_lines.skip(all_lines.len() as int).len() == 0);
        assert(kept.deep_view() + filter_lines_spec(
            all_lines.skip(all_lines.len() as int),
            fps,
            rels.deep_view(),
            names.deep_view(),
        ) =~= kept.deep_view());
    }
    let mut sep: Vec<char> = Vec::new();
    sep.push('\n');
    proof {
        assert(sep@ =~= seq!['\n']);
    }
    let joined = join_chars(&kept, &sep);
    chars_to_string(&joined)
}

/// The label naming a batch: the single file, or a count of files.
pub open spec fn rust_label_spec(fps: Seq<Seq<char>>) -> Seq<char> {
    if fps.len() == 1 {
        fps[0]
    } else {
        dec_spec(fps.len() as nat) + " files"@
    }
}

/// The clippy invocation arguments, with the lenient overlay when
/// asked: the unused-variable and unused-import categories are allowed.
/// The toolchain resolves names before linting and so has no
/// undefined-reference rule to suppress.
pub fn clippy_args(lenient: bool) -> (r: Vec<String>)
    ensures
        !lenient ==> r.deep_view() =~= seq![
            "clippy"@,
            "--message-format=short"@,
            "--"@,
            "-D"@,
            "warnings"@,
        ],
        lenient ==> r.deep_view() =~= seq![
            "clippy"@,
            "--message-format=short"@,
            "--"@,
            "-D"@,
            "warnings"@,
            "-A"@,
            "unused_variables"@,
            "-A"@,
            "unused_imports"@,
        ],
{
    let mut r: Vec<String> = Vec::new();
    r.push(String::from_str("clippy"));
    r.push(String::from_str("--message-format=short"));
    r.push(String::from_str("--"));
    r.push(String::from_str("-D"));
    r.push(String::from_str("warnings"));
    if lenient {
        r.push(String::from_str("-A"));
        r.push(String::from_str("unused_variables"));
        r.push(String::from_str("-A"));
        r.push(String::from_str("unused_imports"));
        proof {
            assert(r.deep_view() =~~= seq![
                "clippy"@,
                "--message-format=short"@,
                "--"@,
                "-D"@,
                "warnings"@,
                "-A"@,
                "unused_variables"@,
                "-A"@,
                "unused_imports"@,
            ]);
        }
    } else {
        proof {
            assert(r.deep_view() =~~= seq![
                "clippy"@,
                "--message-format=short"@,
                "--"@,
                "-D"@,
                "warnings"@,
            ]);
        }
    }
    r
}

/// Decide the batch outcome of one clippy run: when the filtered output
/// holds nothing about the requested files the batch passes; otherwise
/// it blocks, quoting exactly the relevant lines.
pub fn run_rust_lint_multi(
    file_paths: &Vec<String>,
    project_root: &str,
    debug: bool,
    stdout: &str,
    stderr: &str,
) -> (r: String)
    ensures
        filter_clippy_spec(stdout@, stderr@, file_paths.deep_view(), project_root@).len() == 0
            ==> r@ == continue_result_spec(
            debug,
            "[ralph-hook-lint] lint passed for "@ + rust_label_spec(file_paths.deep_view())
                + " using clippy."@,
        ),
        filter_clippy_spec(stdout@, stderr@, file_paths.deep_view(), project_root@).len() > 0
            ==> r@ == lint_block_spec(
            rust_label_spec(file_paths.deep_view()),
            "clippy"@,
            filter_clippy_spec(stdout@, stderr@, file_paths.deep_view(), project_root@),
        ),
{
    let file_errors = filter_clippy_output_multi(stdout, stderr, file_paths, project_root);
    let label: String = if file_paths.len() == 1 {
        let l = file_paths[0].clone();
        proof {
            assert(l@ == file_paths.deep_view()[0]);
        }
        l
    } else {
        let mut lv = dec_chars(file_paths.len());
        push_str_chars(&mut lv, " files");
        chars_to_string(&lv)
    };
    let errv = str_to_chars(file_errors.as_str());
    if errv.len() == 0 {
        let mut msg: Vec<char> = Vec::new();
        push_str_chars(&mut msg, "[ralph-hook-lint] lint passed for ");
        push_str_chars(&mut msg, label.as_str());
        push_str_chars(&mut msg, " using clippy.");
        let m = chars_to_string(&msg);
        proof {
            assert(msg@ =~= "[ralph-hook-lint] lint passed for "@ + rust_label_spec(
                file_paths.deep_view(),
            ) + " using clippy."@);
        }
        continue_result(debug, m.as_str())
    } else {
        let mut out: Vec<char> = Vec::new();
        push_str_chars(&mut out, "{\"decision\":\"block\",\"reason\":\"");
        push_str_chars(&mut out, "[ralph-hook-lint] lint errors in ");
        let labv = str_to_chars(label.as_str());
        let labe = escape_chars(&labv);
        push_vec_chars(&mut out, &labe);
        push_str_chars(&mut out, " using ");
        let clv = str_to_chars("clippy");
        let cle = escape_chars(&clv);
        push_vec_chars(&mut out, &cle);
        push_str_chars(&mut out, ":\\n\\n");
        let erre = escape_chars(&errv);
        push_vec_chars(&mut out, &erre);
        push_str_chars(&mut out, "\\n\\nFix lint errors.");
        push_str_chars(&mut out, "\"}");
        proof {
            assert(out@ =~= lint_block_spec(
                rust_label_spec(file_paths.deep_view()),
                "clippy"@,
                filter_clippy_spec(stdout@, stderr@, file_paths.deep_view(), project_root@),
            ));
        }
        chars_to_string(&out)
    }
}

/// Decide the outcome of one clippy run for a single file.
pub fn run_rust_lint(
    file_path: &str,
    project_root: &str,
    debug: bool,
    stdout: &str,
    stderr: &str,
) -> (r: String)
    ensures
        filter_clippy_spec(stdout@, stderr@, seq![file_path@], project_root@).len() == 0 ==> r@
            == continue_result_spec(
            debug,
            "[ralph-hook-lint] lint passed for "@ + file_path@ + " using clippy."@,
        ),
        filter_clippy_spec(stdout@, stderr@, seq![file_path@], project_root@).len() > 0 ==> r@
            == lint_block_spec(
            file_path@,
            "clippy"@,
            filter_clippy_spec(stdout@, stderr@, seq![file_path@], project_root@),
        ),
{
    let mut fps: Vec<String> = Vec::new();
    fps.push(String::from_str(file_path));
    proof {
        assert(fps.deep_view() =~~= seq![file_path@]);
        assert(rust_label_spec(seq![file_path@]) == file_path@);
    }
    run_rust_lint_multi(&fps, project_root, debug, stdout, stderr)
}

/// Whether some pattern of `pats` occurs in `line`.
fn any_contains_chars(line: &Vec<char>, pats: &Vec<Vec<char>>) -> (r: bool)
    ensures
        r == any_contains(line@, pats.deep_view()),
{
    let mut i: usize = 0;
    while i < pats.len()
        invariant
            i <= pats@.len(),
            pats.deep_view().len() == pats@.len(),
            forall|j: int| 0 <= j < i ==> !contains_seq(line@, pats.deep_view()[j]),
        decreases pats@.len() - i,
    {
        proof {
            assert(pats.deep_view()[i as int] == pats@[i as int]@);
        }
        if contains_chars(line, &pats[i]) {
            return true;
        }
        i += 1;
    }
    false
}

/// The index of the first candidate found to be present, which is then
/// used exclusively: once a tool is present, no later candidate is
/// tried, whatever happens when it runs.
pub open spec fn first_present_spec(present: Seq<bool>) -> Option<int>
    decreases present.len(),
{
    if present.len() == 0 {
        None
    } else if present[0] {
        Some(0)
    } else {
        match first_present_spec(present.drop_first()) {
            Some(i) => Some(i + 1),
            None => None,
        }
    }
}

/// Select the first present candidate tool.
pub fn first_present(present: &Vec<bool>) -> (r: Option<usize>)
    ensures
        match r {
            Some(i) => first_present_spec(present@) == Some(i as int) && i < present@.len()
                && present@[i as int] && forall|j: int| 0 <= j < i ==> !present@[j],
            None => first_present_spec(present@) is None && forall|j: int|
                0 <= j < present@.len() ==> !present@[j],
        },
{
    proof {
        lemma_first_present_props(present@);
    }
    let mut i: usize = 0;
    while i < present.len()
        invariant
            i <= present@.len(),
            forall|j: int| 0 <= j < i ==> !present@[j],
        decreases present@.len() - i,
    {
        if present[i] {
            proof {
                lemma_first_present_at(present@, i as int);
            }
            return Some(i);
        }
        i += 1;
    }
    None
}

proof fn lemma_first_present_props(present: Seq<bool>)
    ensures
        first_present_spec(present) is None <==> forall|j: int|
            0 <= j < present.len() ==> !present[j],
    decreases present.len(),
{
    if present.len() > 0 && !present[0] {
        lemma_first_present_props(present.drop_first());
        if first_present_spec(present) is None {
            assert forall|j: int| 0 <= j < present.len() implies !present[j] by {
                if j > 0 {
                    assert(present.drop_first()[j - 1] == present[j]);
                }
            }
        } else {
            assert(!(forall|j: int|
                0 <= j < present.drop_first().len() ==> !present.drop_first()[j]));
            let j = choose|j: int|
                0 <= j < present.drop_first().len() && present.drop_first()[j];
            assert(present[j + 1]);
        }
    }
}

proof fn lemma_first_present_at(present: Seq<bool>, k: int)
    requires
        0 <= k < present.len(),
        present[k],
        forall|j: int| 0 <= j < k ==> !present[j],
    ensures
        first_present_spec(present) == Some(k),
    decreases k,
{
    if k > 0 {
        assert forall|j: int| 0 <= j < k - 1 implies !present.drop_first()[j] by {
            assert(present.drop_first()[j] == present[j + 1]);
        }
        assert(present.drop_first()[k - 1] == present[k]);
        lemma_first_present_at(present.drop_first(), k - 1);
    }
}

/// Whether two strings hold the same text.
fn str_eq(a: &str, b: &str) -> (r: bool)
    ensures
        r == (a@ == b@),
{
    let av = str_to_chars(a);
    let bv = str_to_chars(b);
    eq_chars(&av, &bv)
}

/// A continue decision whose message is `prefix`, the file path, and
/// `suffix`.
fn continue_around(debug: bool, prefix: &str, file_path: &str, suffix: &str) -> (r: String)
    ensures
        r@ == continue_result_spec(debug, prefix@ + file_path@ + suffix@),
{
    let mut msg: Vec<char> = Vec::new();
    push_str_chars(&mut msg, prefix);
    push_str_chars(&mut msg, file_path);
    push_str_chars(&mut msg, suffix);
    let m = chars_to_string(&msg);
    proof {
        assert(msg@ =~= prefix@ + file_path@ + suffix@);
    }
    continue_result(debug, m.as_str())
}

/// The web ecosystem's candidate lint tools, in trial order.
pub fn js_linters() -> (r: Vec<String>)
    ensures
        r.deep_view() =~= seq!["oxlint"@, "biome"@, "eslint"@],
{
    let mut r: Vec<String> = Vec::new();
    r.push(String::from_str("oxlint"));
    r.push(String::from_str("biome"));
    r.push(String::from_str("eslint"));
    proof {
        assert(r.deep_view() =~~= seq!["oxlint"@, "biome"@, "eslint"@]);
    }
    r
}

/// The project-local install path for a web-ecosystem tool.
pub fn js_linter_bin(project_root: &str, linter: &str) -> (r: String)
    ensures
        r@ == project_root@ + "/node_modules/.bin/"@ + linter@,
{
    let mut v: Vec<char> = Vec::new();
    push_str_chars(&mut v, project_root);
    push_str_chars(&mut v, "/node_modules/.bin/");
    push_str_chars(&mut v, linter);
    proof {
        assert(v@ =~= project_root@ + "/node_modules/.bin/"@ + linter@);
    }
    chars_to_string(&v)
}

/// The arguments for a web-ecosystem tool run, with the tool's own
/// lenient-mode suppressions for unused-variable, unused-import and
/// undefined-reference rules.
pub fn js_lint_args(linter: &str, file_path: &str, lenient: bool) -> (r: Vec<String>)
    ensures
        linter@ == "biome"@ && !lenient ==> r.deep_view() =~= seq!["lint"@, file_path@],
        linter@ == "biome"@ && lenient ==> r.deep_view() =~= seq![
            "lint"@,
            file_path@,
            "--skip=correctness/noUnusedVariables"@,
            "--skip=correctness/noUnusedImports"@,
            "--skip=correctness/noUndeclaredVariables"@,
        ],
        linter@ == "oxlint"@ && !lenient ==> r.deep_view() =~= seq![file_path@],
        linter@ == "oxlint"@ && lenient ==> r.deep_view() =~= seq![
            file_path@,
            "--allow"@,
            "no-unused-vars"@,
            "--allow"@,
            "@typescript-eslint/no-unused-vars"@,
            "--allow"@,
            "no-undef"@,
        ],
        linter@ == "eslint"@ && !lenient ==> r.deep_view() =~= seq![file_path@],
        linter@ == "eslint"@ && lenient ==> r.deep_view() =~= seq![
            file_path@,
            "--rule"@,
            "no-unused-vars: off"@,
            "--rule"@,
            "@typescript-eslint/no-unused-vars: off"@,
            "--rule"@,
            "no-undef: off"@,
            "--rule"@,
            "react/jsx-no-undef: off"@,
        ],
{
    proof {
        reveal_strlit("biome");
        reveal_strlit("oxlint");
        reveal_strlit("eslint");
        assert("biome"@.len() == 5 && "oxlint"@.len() == 6 && "eslint"@.len() == 6);
        assert("oxlint"@[0] != "eslint"@[0]);
    }
    let mut r: Vec<String> = Vec::new();
    if str_eq(linter, "biome") {
        r.push(String::from_str("lint"));
        r.push(String::from_str(file_path));
        if lenient {
            r.push(String::from_str("--skip=correctness/noUnusedVariables"));
            r.push(String::from_str("--skip=correctness/noUnusedImports"));
            r.push(String::from_str("--skip=correctness/noUndeclaredVariables"));
            proof {
                assert(r.deep_view() =~~= seq![
                    "lint"@,
                    file_path@,
                    "--skip=correctness/noUnusedVariables"@,
                    "--skip=correctness/noUnusedImports"@,
                    "--skip=correctness/noUndeclaredVariables"@,
                ]);
            }
        } else {
            proof {
                assert(r.deep_view() =~~= seq!["lint"@, file_path@]);
            }
        }
        return r;
    }
    r.push(String::from_str(file_path));
    if lenient && str_eq(linter, "oxlint") {
        r.push(String::from_str("--allow"));
        r.push(String::from_str("no-unused-vars"));
        r.push(String::from_str("--allow"));
        r.push(String::from_str("@typescript-eslint/no-unused-vars"));
        r.push(String::from_str("--allow"));
        r.push(String::from_str("no-undef"));
        proof {
            assert(r.deep_view() =~~= seq![
                file_path@,
                "--allow"@,
                "no-unused-vars"@,
                "--allow"@,
                "@typescript-eslint/no-unused-vars"@,
                "--allow"@,
                "no-undef"@,
            ]);
        }
        return r;
    }
    if lenient && str_eq(linter, "eslint") {
        r.push(String::from_str("--rule"));
        r.push(String::from_str("no-unused-vars: off"));
        r.push(String::from_str("--rule"));
        r.push(String::from_str("@typescript-eslint/no-unused-vars: off"));
        r.push(String::from_str("--rule"));
        r.push(String::from_str("no-undef: off"));
        r.push(String::from_str("--rule"));
        r.push(String::from_str("react/jsx-no-undef: off"));
        proof {
            assert(r.deep_view() =~~= seq![
                file_path@,
                "--rule"@,
                "no-unused-vars: off"@,
                "--rule"@,
                "@typescript-eslint/no-unused-vars: off"@,
                "--rule"@,
                "no-undef: off"@,
                "--rule"@,
                "react/jsx-no-undef: off"@,
            ]);
        }
        return r;
    }
    proof {
        assert(r.deep_view() =~~= seq![file_path@]);
    }
    r
}

/// The arguments for the generic "run the configured lint script"
/// fallback of the web ecosystem's package manager.
pub fn npm_fallback_args(file_path: &str) -> (r: Vec<String>)
    ensures
        r.deep_view() =~= seq!["run"@, "lint"@, "--if-present"@, "--"@, file_path@],
{
    let mut r: Vec<String> = Vec::new();
    r.push(String::from_str("run"));
    r.push(String::from_str("lint"));
    r.push(String::from_str("--if-present"));
    r.push(String::from_str("--"));
    r.push(String::from_str(file_path));
    proof {
        assert(r.deep_view() =~~= seq!["run"@, "lint"@, "--if-present"@, "--"@, file_path@]);
    }
    r
}

/// Whether the package manager's lint script actually ran: its output
/// shows neither a missing script nor a package-manager error.
pub fn npm_lint_configured(stdout: &str, stderr: &str) -> (r: bool)
    ensures
        r == (!contains_seq(stdout@ + stderr@, "Missing script"@) && !contains_seq(
            stdout@ + stderr@,
            "npm error"@,
        )),
{
    let mut combined: Vec<char> = Vec::new();
    push_str_chars(&mut combined, stdout);
    push_str_chars(&mut combined, stderr);
    let p1 = str_to_chars("Missing script");
    let p2 = str_to_chars("npm error");
    let c1 = contains_chars(&combined, &p1);
    let c2 = contains_chars(&combined, &p2);
    !c1 && !c2
}

/// The continue decision when no web-ecosystem linter is installed.
pub fn js_no_linter_result(file_path: &str, debug: bool) -> (r: String)
    ensures
        r@ == continue_result_spec(
            debug,
            "[ralph-hook-lint] no linter found for "@ + file_path@ + "."@,
        ),
{
    continue_around(debug, "[ralph-hook-lint] no linter found for ", file_path, ".")
}

/// The scripting ecosystem's candidate lint tools, fastest first.
pub fn python_linters() -> (r: Vec<String>)
    ensures
        r.deep_view() =~= seq!["ruff"@, "mypy"@, "pylint"@, "flake8"@],
{
    let mut r: Vec<String> = Vec::new();
    r.push(String::from_str("ruff"));
    r.push(String::from_str("mypy"));
    r.push(String::from_str("pylint"));
    r.push(String::from_str("flake8"));
    proof {
        assert(r.deep_view() =~~= seq!["ruff"@, "mypy"@, "pylint"@, "flake8"@]);
    }
    r
}

/// The virtual-environment directories probed for a project-local tool,
/// in order.
pub fn python_venv_dirs() -> (r: Vec<String>)
    ensures
        r.deep_view() =~= seq![".venv/bin"@, "venv/bin"@, ".env/bin"@, "env/bin"@],
{
    let mut r: Vec<String> = Vec::new();
    r.push(String::from_str(".venv/bin"));
    r.push(String::from_str("venv/bin"));
    r.push(String::from_str(".env/bin"));
    r.push(String::from_str("env/bin"));
    proof {
        assert(r.deep_view() =~~= seq![".venv/bin"@, "venv/bin"@, ".env/bin"@, "env/bin"@]);
    }
    r
}

/// The candidate path of a tool inside a project-local directory.
pub fn venv_bin_path(project_root: &str, venv_dir: &str, linter: &str) -> (r: String)
    ensures
        r@ == project_root@ + "/"@ + venv_dir@ + "/"@ + linter@,
{
    let mut v: Vec<char> = Vec::new();
    push_str_chars(&mut v, project_root);
    push_str_chars(&mut v, "/");
    push_str_chars(&mut v, venv_dir);
    push_str_chars(&mut v, "/");
    push_str_chars(&mut v, linter);
    proof {
        assert(v@ =~= project_root@ + "/"@ + venv_dir@ + "/"@ + linter@);
    }
    chars_to_string(&v)
}

/// The arguments for a scripting-ecosystem tool run, with lenient-mode
/// suppressions where the tool supports them.
pub fn python_lint_args(linter: &str, file_path: &str, lenient: bool) -> (r: Vec<String>)
    ensures
        linter@ == "ruff"@ && !lenient ==> r.deep_view() =~= seq![
            "check"@,
            "--output-format=concise"@,
            file_path@,
        ],
        linter@ == "ruff"@ && lenient ==> r.deep_view() =~= seq![
            "check"@,
            "--output-format=concise"@,
            file_path@,
            "--ignore"@,
            "F841,F401,F821"@,
        ],
        linter@ == "pylint"@ && !lenient ==> r.deep_view() =~= seq![
            "--output-format=text"@,
            file_path@,
        ],
        linter@ == "pylint"@ && lenient ==> r.deep_view() =~= seq![
            "--output-format=text"@,
            file_path@,
            "--disable=W0611,W0612,E0602"@,
        ],
        linter@ == "flake8"@ && !lenient ==> r.deep_view() =~= seq![file_path@],
        linter@ == "flake8"@ && lenient ==> r.deep_view() =~= seq![
            file_path@,
            "--extend-ignore=F841,F401,F821"@,
        ],
        linter@ == "mypy"@ ==> r.deep_view() =~= seq![file_path@],
{
    proof {
        reveal_strlit("ruff");
        reveal_strlit("mypy");
        reveal_strlit("pylint");
        reveal_strlit("flake8");
        assert("ruff"@.len() == 4 && "mypy"@.len() == 4 && "pylint"@.len() == 6 && "flake8"@.len()
            == 6);
        assert("ruff"@[0] != "mypy"@[0] && "pylint"@[0] != "flake8"@[0]);
    }
    let mut r: Vec<String> = Vec::new();
    if str_eq(linter, "ruff") {
        r.push(String::from_str("check"));
        r.push(String::from_str("--output-format=concise"));
        r.push(String::from_str(file_path));
        if lenient {
            r.push(String::from_str("--ignore"));
            r.push(String::from_str("F841,F401,F821"));
            proof {
                assert(r.deep_view() =~~= seq![
                    "check"@,
                    "--output-format=concise"@,
                    file_path@,
                    "--ignore"@,
                    "F841,F401,F821"@,
                ]);
            }
        } else {
            proof {
                assert(r.deep_view() =~~= seq!["check"@, "--output-format=concise"@, file_path@]);
            }
        }
        return r;
    }
    if str_eq(linter, "pylint") {
        r.push(String::from_str("--output-format=text"));
        r.push(String::from_str(file_path));
        if lenient {
            r.push(String::from_str("--disable=W0611,W0612,E0602"));
            proof {
                assert(r.deep_view() =~~= seq![
                    "--output-format=text"@,
                    file_path@,
                    "--disable=W0611,W0612,E0602"@,
                ]);
            }
        } else {
            proof {
                assert(r.deep_view() =~~= seq!["--output-format=text"@, file_path@]);
            }
        }
        return r;
    }
    r.push(String::from_str(file_path));
    if lenient && str_eq(linter, "flake8") {
        r.push(String::from_str("--extend-ignore=F841,F401,F821"));
        proof {
            assert(r.deep_view() =~~= seq![file_path@, "--extend-ignore=F841,F401,F821"@]);
        }
        return r;
    }
    proof {
        assert(r.deep_view() =~~= seq![file_path@]);
    }
    r
}

/// The continue decision when no scripting-ecosystem linter is found.
pub fn python_no_linter_result(file_path: &str, debug: bool) -> (r: String)
    ensures
        r@ == continue_result_spec(
            debug,
            "[ralph-hook-lint] no Python linter found for "@ + file_path@
                + ". Install ruff for best performance: pip install ruff"@,
        ),
{
    continue_around(
        debug,
        "[ralph-hook-lint] no Python linter found for ",
        file_path,
        ". Install ruff for best performance: pip install ruff",
    )
}

/// The compiled ecosystem's candidate lint tools, in trial order (the
/// toolchain's own vetting pass is the final fallback).
pub fn go_linters() -> (r: Vec<String>)
    ensures
        r.deep_view() =~= seq!["golangci-lint"@, "staticcheck"@],
{
    let mut r: Vec<String> = Vec::new();
    r.push(String::from_str("golangci-lint"));
    r.push(String::from_str("staticcheck"));
    proof {
        assert(r.deep_view() =~~= seq!["golangci-lint"@, "staticcheck"@]);
    }
    r
}

/// The arguments for a compiled-ecosystem tool run.
pub fn go_lint_args(linter: &str, file_path: &str, lenient: bool) -> (r: Vec<String>)
    ensures
        linter@ == "golangci-lint"@ && !lenient ==> r.deep_view() =~= seq![
            "run"@,
            "--fast"@,
            file_path@,
        ],
        linter@ == "golangci-lint"@ && lenient ==> r.deep_view() =~= seq![
            "run"@,
            "--fast"@,
            file_path@,
            "--disable=unused"@,
        ],
        linter@ == "staticcheck"@ ==> r.deep_view() =~= seq![file_path@],
{
    proof {
        reveal_strlit("golangci-lint");
        reveal_strlit("staticcheck");
        assert("golangci-lint"@.len() == 13 && "staticcheck"@.len() == 11);
    }
    let mut r: Vec<String> = Vec::new();
    if str_eq(linter, "golangci-lint") {
        r.push(String::from_str("run"));
        r.push(String::from_str("--fast"));
        r.push(String::from_str(file_path));
        if lenient {
            r.push(String::from_str("--disable=unused"));
            proof {
                assert(r.deep_view() =~~= seq![
                    "run"@,
                    "--fast"@,
                    file_path@,
                    "--disable=unused"@,
                ]);
            }
        } else {
            proof {
                assert(r.deep_view() =~~= seq!["run"@, "--fast"@, file_path@]);
            }
        }
        return r;
    }
    r.push(String::from_str(file_path));
    proof {
        assert(r.deep_view() =~~= seq![file_path@]);
    }
    r
}

/// The arguments for the toolchain's own vetting pass.
pub fn go_vet_args(file_path: &str) -> (r: Vec<String>)
    ensures
        r.deep_view() =~= seq!["vet"@, file_path@],
{
    let mut r: Vec<String> = Vec::new();
    r.push(String::from_str("vet"));
    r.push(String::from_str(file_path));
    proof {
        assert(r.deep_view() =~~= seq!["vet"@, file_path@]);
    }
    r
}

/// The continue decision when no compiled-ecosystem linter is found.
pub fn go_no_linter_result(file_path: &str, debug: bool) -> (r: String)
    ensures
        r@ == continue_result_spec(
            debug,
            "[ralph-hook-lint] no Go linter found for "@ + file_path@
                + ". Install golangci-lint for best results: https://golangci-lint.run"@,
        ),
{
    continue_around(
        debug,
        "[ralph-hook-lint] no Go linter found for ",
        file_path,
        ". Install golangci-lint for best results: https://golangci-lint.run",
    )
}

/// Which build tool owns a jvm-ecosystem project root.
#[derive(Debug, Clone, Copy, PartialEq, Eq, Structural)]
pub enum JavaBuildTool {
    Maven,
    Gradle,
    Missing,
}

/// Pick the build tool from the markers present at the project root;
/// the Maven manifest takes precedence.
pub fn java_build_tool(has_pom: bool, has_gradle: bool, has_gradle_kts: bool) -> (r: JavaBuildTool)
    ensures
        has_pom ==> r == JavaBuildTool::Maven,
        !has_pom && (has_gradle || has_gradle_kts) ==> r == JavaBuildTool::Gradle,
        !has_pom && !has_gradle && !has_gradle_kts ==> r == JavaBuildTool::Missing,
{
    if has_pom {
        JavaBuildTool::Maven
    } else if has_gradle || has_gradle_kts {
        JavaBuildTool::Gradle
    } else {
        JavaBuildTool::Missing
    }
}

/// The jvm ecosystem's Maven checkers, in trial order: each with its
/// goal name, invocation arguments, and the marker text that shows the
/// plugin is not configured.  Neither checker supports inline rule
/// suppression, so the lenient flag has no overlay here.
pub fn maven_linters() -> (r: Vec<(String, Vec<String>, String)>)
    ensures
        r@.len() == 2,
        r@[0].0@ == "pmd:check"@,
        r@[0].1.deep_view() =~= seq!["pmd:check"@, "-q"@],
        r@[0].2@ == "No plugin found for prefix 'pmd'"@,
        r@[1].0@ == "spotbugs:check"@,
        r@[1].1.deep_view() =~= seq!["spotbugs:check"@, "-q"@],
        r@[1].2@ == "No plugin found for prefix 'spotbugs'"@,
{
    let mut r: Vec<(String, Vec<String>, String)> = Vec::new();
    let mut a0: Vec<String> = Vec::new();
    a0.push(String::from_str("pmd:check"));
    a0.push(String::from_str("-q"));
    proof {
        assert(a0.deep_view() =~~= seq!["pmd:check"@, "-q"@]);
    }
    r.push(
        (
            String::from_str("pmd:check"),
            a0,
            String::from_str("No plugin found for prefix 'pmd'"),
        ),
    );
    let mut a1: Vec<String> = Vec::new();
    a1.push(String::from_str("spotbugs:check"));
    a1.push(String::from_str("-q"));
    proof {
        assert(a1.deep_view() =~~= seq!["spotbugs:check"@, "-q"@]);
    }
    r.push(
        (
            String::from_str("spotbugs:check"),
            a1,
            String::from_str("No plugin found for prefix 'spotbugs'"),
        ),
    );
    r
}

/// The jvm ecosystem's Gradle checker tasks, in trial order: each with
/// the marker text that shows the task is not configured.
pub fn gradle_linters() -> (r: Vec<(String, String)>)
    ensures
        r@.len() == 2,
        r@[0].0@ == "pmdMain"@,
        r@[0].1@ == "Task 'pmdMain' not found"@,
        r@[1].0@ == "spotbugsMain"@,
        r@[1].1@ == "Task 'spotbugsMain' not found"@,
{
    let mut r: Vec<(String, String)> = Vec::new();
    r.push((String::from_str("pmdMain"), String::from_str("Task 'pmdMain' not found")));
    r.push((String::from_str("spotbugsMain"), String::from_str("Task 'spotbugsMain' not found")));
    r
}

/// Whether a Maven run shows the checker plugin absent rather than a
/// lint outcome.
pub fn maven_plugin_missing(stderr: &str, marker: &str) -> (r: bool)
    ensures
        r == (contains_seq(stderr@, "Unknown lifecycle phase"@) || contains_seq(stderr@, marker@)),
{
    let sv = str_to_chars(stderr);
    let p1 = str_to_chars("Unknown lifecycle phase");
    let p2 = str_to_chars(marker);
    let c1 = contains_chars(&sv, &p1);
    let c2 = contains_chars(&sv, &p2);
    c1 || c2
}

/// Whether a Gradle run shows the checker task absent.
pub fn gradle_task_missing(stderr: &str, marker: &str) -> (r: bool)
    ensures
        r == contains_seq(stderr@, marker@),
{
    let sv = str_to_chars(stderr);
    let p = str_to_chars(marker);
    contains_chars(&sv, &p)
}

/// The Gradle command: the project's wrapper when present, else the
/// system one.
pub fn gradle_command(has_wrapper: bool) -> (r: String)
    ensures
        has_wrapper ==> r@ == "./gradlew"@,
        !has_wrapper ==> r@ == "gradle"@,
{
    if has_wrapper {
        String::from_str("./gradlew")
    } else {
        String::from_str("gradle")
    }
}

/// The continue decision when a Maven project configures no checker.
pub fn java_no_linter_maven_result(file_path: &str, debug: bool) -> (r: String)
    ensures
        r@ == continue_result_spec(
            debug,
            "[ralph-hook-lint] no Java linter configured for "@ + file_path@
                + ". Add maven-pmd-plugin or spotbugs-maven-plugin to pom.xml."@,
        ),
{
    continue_around(
        debug,
        "[ralph-hook-lint] no Java linter configured for ",
        file_path,
        ". Add maven-pmd-plugin or spotbugs-maven-plugin to pom.xml.",
    )
}

/// The continue decision when a Gradle project configures no checker.
pub fn java_no_linter_gradle_result(file_path: &str, debug: bool) -> (r: String)
    ensures
        r@ == continue_result_spec(
            debug,
            "[ralph-hook-lint] no Java linter configured for "@ + file_path@
                + ". Add pmd or spotbugs plugin to build.gradle."@,
        ),
{
    continue_around(
        debug,
        "[ralph-hook-lint] no Java linter configured for ",
        file_path,
        ". Add pmd or spotbugs plugin to build.gradle.",
    )
}

/// The continue decision when no jvm build tool is present at all.
pub fn java_no_build_tool_result(file_path: &str, debug: bool) -> (r: String)
    ensures
        r@ == continue_result_spec(
            debug,
            "[ralph-hook-lint] no Java build tool found for "@ + file_path@
                + ". Add pom.xml or build.gradle."@,
        ),
{
    continue_around(
        debug,
        "[ralph-hook-lint] no Java build tool found for ",
        file_path,
        ". Add pom.xml or build.gradle.",
    )
}

} // verus!
