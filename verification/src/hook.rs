//! Invocation-mode decisions.
//!
//! One process invocation serves one of three modes: lint the payload's
//! file immediately, collect its path for a later batched run, or drain
//! a session's collected paths and lint them grouped by project.  The
//! decisions each mode takes — which fields the payload must carry,
//! which message a skipped event gets, how collected files group by
//! project, and how per-file outcomes aggregate into one decision — are
//! verified here; the caller performs the reads, the tool runs, and the
//! store I/O between the steps.

use vstd::prelude::*;

verus! {

use crate::chars::{
    chars_to_string, contains_chars, contains_seq, dec_chars, dec_spec, join_chars, join_spec,
    lemma_contains_iff_exists, match_at, push_str_chars, push_vec_chars, str_to_chars,
};
use crate::extract::{extract_field_spec, extract_file_path, extract_reason_field,
    extract_session_id};
use crate::response::{
    block_result_spec, continue_result, continue_result_spec, escape_chars, escape_spec,
    lint_block_spec,
};
use crate::store::has_line;

/// The payload carries a non-empty string value for `key`.
pub open spec fn present_field(input: Seq<char>, key: Seq<char>) -> bool {
    match extract_field_spec(input, key) {
        Some(v) => v.len() > 0,
        None => false,
    }
}

/// The payload's value for `key` (meaningful when present).
pub open spec fn field_value(input: Seq<char>, key: Seq<char>) -> Seq<char> {
    extract_field_spec(input, key)->0
}

/// The message on an event that names no file.
pub open spec fn no_file_path_msg() -> Seq<char> {
    "[ralph-hook-lint] "@ + "no file_path"@ + " provided, skipping lint hook."@
}

/// Decide what the default mode lints: the payload's file path, or
/// nothing — an event without one is no error, it passes through.
pub fn lint_target(input: &str, debug: bool) -> (r: Result<String, String>)
    ensures
        match r {
            Ok(fp) => present_field(input@, "file_path"@) && fp@ == field_value(
                input@,
                "file_path"@,
            ),
            Err(d) => !present_field(input@, "file_path"@) && d@ == continue_result_spec(
                debug,
                no_file_path_msg(),
            ),
        },
{
    match extract_file_path(input) {
        Some(fp) => {
            if !fp.as_str().is_empty() {
                return Ok(fp);
            }
            Err(no_file_path_result(debug))
        },
        None => Err(no_file_path_result(debug)),
    }
}

/// The continue decision on an event that names no file.
fn no_file_path_result(debug: bool) -> (r: String)
    ensures
        r@ == continue_result_spec(debug, no_file_path_msg()),
{
    let mut msg: Vec<char> = Vec::new();
    push_str_chars(&mut msg, "[ralph-hook-lint] ");
    push_str_chars(&mut msg, "no file_path");
    push_str_chars(&mut msg, " provided, skipping lint hook.");
    let m = chars_to_string(&msg);
    proof {
        assert(msg@ =~= no_file_path_msg());
    }
    continue_result(debug, m.as_str())
}

/// The message on a file that no ecosystem or project claims.
pub open spec fn no_project_msg(fp: Seq<char>) -> Seq<char> {
    "[ralph-hook-lint] skipping lint: "@ + "unsupported file type or no project found"@ + " for "@
        + fp + "."@
}

/// The continue decision on a file with an unrecognized extension or no
/// enclosing project.
pub fn no_project_result(file_path: &str, debug: bool) -> (r: String)
    ensures
        r@ == continue_result_spec(debug, no_project_msg(file_path@)),
{
    let mut msg: Vec<char> = Vec::new();
    push_str_chars(&mut msg, "[ralph-hook-lint] skipping lint: ");
    push_str_chars(&mut msg, "unsupported file type or no project found");
    push_str_chars(&mut msg, " for ");
    push_str_chars(&mut msg, file_path);
    push_str_chars(&mut msg, ".");
    let m = chars_to_string(&msg);
    proof {
        assert(msg@ =~= no_project_msg(file_path@));
    }
    continue_result(debug, m.as_str())
}

/// What the collect mode does with one event.
pub enum CollectAction {
    /// Nothing to record; answer with this decision.
    Skip { response: String },
    /// Record `file_path` under `session_id`, then answer.
    Record { session_id: String, file_path: String, response: String },
}

/// The message on a collect event without a session.
pub open spec fn no_session_collect_msg() -> Seq<char> {
    "[ralph-hook-lint] no session_id, skipping collect."@
}

/// The message on a collect event without a file.
pub open spec fn no_file_collect_msg() -> Seq<char> {
    "[ralph-hook-lint] "@ + "no file_path"@ + " provided, skipping collect."@
}

/// The message acknowledging a recorded path.
pub open spec fn collected_msg(fp: Seq<char>) -> Seq<char> {
    "[ralph-hook-lint] collected "@ + fp + " for deferred lint."@
}

/// Decide the collect mode's action: record the event's path under its
/// session, or skip — and always continue, whatever the payload held.
pub fn run_collect(input: &str, debug: bool) -> (r: CollectAction)
    ensures
        !present_field(input@, "session_id"@) ==> (r matches CollectAction::Skip { response }
            && response@ == continue_result_spec(debug, no_session_collect_msg())),
        present_field(input@, "session_id"@) && !present_field(input@, "file_path"@) ==> (
        r matches CollectAction::Skip { response } && response@ == continue_result_spec(
            debug,
            no_file_collect_msg(),
        )),
        present_field(input@, "session_id"@) && present_field(input@, "file_path"@) ==> (
        r matches CollectAction::Record { session_id, file_path, response } && session_id@
            == field_value(input@, "session_id"@) && file_path@ == field_value(
            input@,
            "file_path"@,
        ) && response@ == continue_result_spec(
            debug,
            collected_msg(field_value(input@, "file_path"@)),
        )),
{
    let sid = match extract_session_id(input) {
        Some(s) => {
            if s.as_str().is_empty() {
                return CollectAction::Skip {
                    response: continue_result(
                        debug,
                        "[ralph-hook-lint] no session_id, skipping collect.",
                    ),
                };
            }
            s
        },
        None => {
            return CollectAction::Skip {
                response: continue_result(
                    debug,
                    "[ralph-hook-lint] no session_id, skipping collect.",
                ),
            };
        },
    };
    let fp = match extract_file_path(input) {
        Some(f) => {
            if f.as_str().is_empty() {
                return CollectAction::Skip { response: no_file_collect_result(debug) };
            }
            f
        },
        None => {
            return CollectAction::Skip { response: no_file_collect_result(debug) };
        },
    };
    let mut msg: Vec<char> = Vec::new();
    push_str_chars(&mut msg, "[ralph-hook-lint] collected ");
    push_str_chars(&mut msg, fp.as_str());
    push_str_chars(&mut msg, " for deferred lint.");
    let m = chars_to_string(&msg);
    proof {
        assert(msg@ =~= collected_msg(fp@));
    }
    let response = continue_result(debug, m.as_str());
    CollectAction::Record { session_id: sid, file_path: fp, response }
}

/// The continue decision on a collect event without a file.
fn no_file_collect_result(debug: bool) -> (r: String)
    ensures
        r@ == continue_result_spec(debug, no_file_collect_msg()),
{
    let mut msg: Vec<char> = Vec::new();
    push_str_chars(&mut msg, "[ralph-hook-lint] ");
    push_str_chars(&mut msg, "no file_path");
    push_str_chars(&mut msg, " provided, skipping collect.");
    let m = chars_to_string(&msg);
    proof {
        assert(msg@ =~= no_file_collect_msg());
    }
    continue_result(debug, m.as_str())
}

/// The message on a drain event without a session.
pub open spec fn no_session_drain_msg() -> Seq<char> {
    "[ralph-hook-lint] no session_id, skipping lint-collected."@
}

/// Decide which session the drain mode serves, or answer directly.
pub fn lint_collected_session(input: &str, debug: bool) -> (r: Result<String, String>)
    ensures
        match r {
            Ok(sid) => present_field(input@, "session_id"@) && sid@ == field_value(
                input@,
                "session_id"@,
            ),
            Err(d) => !present_field(input@, "session_id"@) && d@ == continue_result_spec(
                debug,
                no_session_drain_msg(),
            ),
        },
{
    match extract_session_id(input) {
        Some(s) => {
            if !s.as_str().is_empty() {
                return Ok(s);
            }
            Err(continue_result(debug, "[ralph-hook-lint] no session_id, skipping lint-collected."))
        },
        None => Err(
            continue_result(debug, "[ralph-hook-lint] no session_id, skipping lint-collected."),
        ),
    }
}

/// The message when a drained session recorded nothing.
pub open spec fn no_files_msg() -> Seq<char> {
    "[ralph-hook-lint] no files collected, skipping lint."@
}

/// The continue decision when a drained session recorded nothing.
pub fn no_files_result(debug: bool) -> (r: String)
    ensures
        r@ == continue_result_spec(debug, no_files_msg()),
{
    continue_result(debug, "[ralph-hook-lint] no files collected, skipping lint.")
}

/// What one dispatch outcome contributes to the aggregated errors: a
/// block decision contributes its reason (or, failing extraction, its
/// whole text); a continue contributes nothing; a dispatch error
/// contributes an explanatory line.
pub open spec fn collected_error_spec(result: Result<Seq<char>, Seq<char>>, label: Seq<char>) -> Seq<
    Seq<char>,
> {
    match result {
        Ok(output) => if contains_seq(output, "\"decision\":\"block"@) {
            match extract_field_spec(output, "reason"@) {
                Some(reason) => seq![reason],
                None => seq![output],
            }
        } else {
            Seq::empty()
        },
        Err(e) => seq!["[ralph-hook-lint] error linting "@ + label + ": "@ + e],
    }
}

/// Fold one dispatch outcome into the aggregated errors.
pub fn collect_lint_errors(result: Result<String, String>, label: &str, errors: &mut Vec<String>)
    ensures
        final(errors).deep_view() == old(errors).deep_view() + collected_error_spec(
            match result {
                Ok(o) => Ok(o@),
                Err(e) => Err(e@),
            },
            label@,
        ),
{
    let ghost old_dv = errors.deep_view();
    match result {
        Ok(output) => {
            let ov = str_to_chars(output.as_str());
            let pat = str_to_chars("\"decision\":\"block");
            if contains_chars(&ov, &pat) {
                match extract_reason_field(output.as_str()) {
                    Some(reason) => {
                        let ghost rv = reason@;
                        errors.push(reason);
                        proof {
                            assert(errors.deep_view() =~~= old_dv + seq![rv]);
                        }
                    },
                    None => {
                        let ghost ov2 = output@;
                        errors.push(output);
                        proof {
                            assert(errors.deep_view() =~~= old_dv + seq![ov2]);
                        }
                    },
                }
            } else {
                proof {
                    assert(old_dv + Seq::<Seq<char>>::empty() =~= old_dv);
                }
            }
        },
        Err(e) => {
            let mut msg: Vec<char> = Vec::new();
            push_str_chars(&mut msg, "[ralph-hook-lint] error linting ");
            push_str_chars(&mut msg, label);
            push_str_chars(&mut msg, ": ");
            push_str_chars(&mut msg, e.as_str());
            let m = chars_to_string(&msg);
            proof {
                assert(msg@ =~= "[ralph-hook-lint] error linting "@ + label@ + ": "@ + e@);
            }
            errors.push(m);
            proof {
                assert(errors.deep_view() =~~= old_dv + seq![
                    "[ralph-hook-lint] error linting "@ + label@ + ": "@ + e@,
                ]);
            }
        },
    }
}

/// Extract the `reason` value from a block decision's text.
pub fn extract_reason(json: &str) -> (r: Option<String>)
    ensures
        match r {
            Some(s) => extract_field_spec(json@, "reason"@) == Some(s@),
            None => extract_field_spec(json@, "reason"@) is None,
        },
{
    extract_reason_field(json)
}

/// The message when every collected file passed.
pub open spec fn all_passed_msg(n: nat) -> Seq<char> {
    "[ralph-hook-lint] all "@ + dec_spec(n) + " collected file(s) passed lint."@
}

/// Aggregate the drained batch's outcomes into the one decision: all
/// clear continues; any error blocks, with the collected reasons joined.
#[verifier::loop_isolation(false)]
pub fn aggregate_decision(errors: &Vec<String>, n_paths: usize, debug: bool) -> (r: String)
    ensures
        errors@.len() == 0 ==> r@ == continue_result_spec(debug, all_passed_msg(n_paths as nat)),
        errors@.len() > 0 ==> r@ == block_result_spec(
            escape_spec(join_spec(errors.deep_view(), "\n\n---\n\n"@)),
        ),
{
    if errors.len() == 0 {
        let mut msg: Vec<char> = Vec::new();
        push_str_chars(&mut msg, "[ralph-hook-lint] all ");
        let nv = dec_chars(n_paths);
        push_vec_chars(&mut msg, &nv);
        push_str_chars(&mut msg, " collected file(s) passed lint.");
        let m = chars_to_string(&msg);
        proof {
            assert(msg@ =~= all_passed_msg(n_paths as nat));
        }
        continue_result(debug, m.as_str())
    } else {
        let mut evs: Vec<Vec<char>> = Vec::new();
        let mut i: usize = 0;
        while i < errors.len()
            invariant
                i <= errors@.len(),
                evs.deep_view() == errors.deep_view().take(i as int),
            decreases errors@.len() - i,
        {
            evs.push(str_to_chars(errors[i].as_str()));
            i += 1;
            proof {
                assert(evs.deep_view() =~~= errors.deep_view().take(i as int));
            }
        }
        proof {
            assert(errors.deep_view().take(errors@.len() as int) =~= errors.deep_view());
        }
        let sep = str_to_chars("\n\n---\n\n");
        let joined = join_chars(&evs, &sep);
        let escaped = escape_chars(&joined);
        let mut out: Vec<char> = Vec::new();
        push_str_chars(&mut out, "{\"decision\":\"block\",\"reason\":\"");
        push_vec_chars(&mut out, &escaped);
        push_str_chars(&mut out, "\"}");
        proof {
            assert(out@ =~= block_result_spec(
                escape_spec(join_spec(errors.deep_view(), "\n\n---\n\n"@)),
            ));
        }
        chars_to_string(&out)
    }
}

/// Adding a file to its project's batch: the file joins the existing
/// group with that root, or opens a new group at the end.
pub open spec fn add_group_spec(
    groups: Seq<(Seq<char>, Seq<Seq<char>>)>,
    root: Seq<char>,
    file: Seq<char>,
) -> Seq<(Seq<char>, Seq<Seq<char>>)>
    decreases groups.len(),
{
    if groups.len() == 0 {
        seq![(root, seq![file])]
    } else if groups[0].0 == root {
        seq![(groups[0].0, groups[0].1.push(file))] + groups.drop_first()
    } else {
        seq![groups[0]] + add_group_spec(groups.drop_first(), root, file)
    }
}

/// No two groups share a project root.
pub open spec fn distinct_roots(groups: Seq<(Seq<char>, Seq<Seq<char>>)>) -> bool {
    forall|i: int, j: int| 0 <= i < j < groups.len() ==> groups[i].0 != groups[j].0
}

proof fn lemma_add_group_keys(groups: Seq<(Seq<char>, Seq<Seq<char>>)>, root: Seq<char>, file: Seq<
    char,
>)
    ensures
        ({
            let r = add_group_spec(groups, root, file);
            &&& forall|i: int|
                0 <= i < groups.len() ==> r.len() > i && #[trigger] r[i].0 == groups[i].0
            &&& r.len() <= groups.len() + 1
            &&& r.len() == groups.len() + 1 ==> r[groups.len() as int].0 == root
        }),
    decreases groups.len(),
{
    if groups.len() == 0 {
    } else if groups[0].0 == root {
    } else {
        lemma_add_group_keys(groups.drop_first(), root, file);
        let r = add_group_spec(groups, root, file);
        let rr = add_group_spec(groups.drop_first(), root, file);
        assert forall|i: int| 0 <= i < groups.len() implies r.len() > i && #[trigger] r[i].0
            == groups[i].0 by {
            if i > 0 {
                assert(r[i] == rr[i - 1]);
                assert(groups.drop_first()[i - 1] == groups[i]);
            }
        }
        if r.len() == groups.len() + 1 {
            assert(r[groups.len() as int] == rr[groups.len() - 1]);
        }
    }
}

/// Batching keeps one group per project root: adding a file never makes
/// two groups share a root, so the project-wide tool runs once per
/// root.
pub proof fn lemma_one_group_per_root(
    groups: Seq<(Seq<char>, Seq<Seq<char>>)>,
    root: Seq<char>,
    file: Seq<char>,
)
    requires
        distinct_roots(groups),
    ensures
        distinct_roots(add_group_spec(groups, root, file)),
    decreases groups.len(),
{
    if groups.len() == 0 {
    } else if groups[0].0 == root {
        let r = add_group_spec(groups, root, file);
        assert forall|i: int, j: int| 0 <= i < j < r.len() implies r[i].0 != r[j].0 by {
            if i > 0 {
                assert(r[i] == groups.drop_first()[i - 1]);
                assert(groups.drop_first()[i - 1] == groups[i]);
            }
            assert(r[j] == groups[j]);
            assert(r[i].0 == groups[i].0);
        }
    } else {
        assert forall|k: int| 0 <= k < groups.drop_first().len() implies groups.drop_first()[k].0
            != root || !(groups[0].0 == groups.drop_first()[k].0) by {}
        if forall|k: int|
            0 <= k < groups.drop_first().len() ==> #[trigger] groups.drop_first()[k].0 != root {
            lemma_one_group_per_root(groups.drop_first(), root, file);
            lemma_add_group_keys(groups.drop_first(), root, file);
            let r = add_group_spec(groups, root, file);
            let rr = add_group_spec(groups.drop_first(), root, file);
            assert forall|i: int, j: int| 0 <= i < j < r.len() implies r[i].0 != r[j].0 by {
                if i > 0 {
                    assert(r[i] == rr[i - 1]);
                    assert(r[j] == rr[j - 1]);
                } else {
                    assert(r[j] == rr[j - 1]);
                    if j - 1 < groups.drop_first().len() {
                        assert(rr[j - 1].0 == groups.drop_first()[j - 1].0);
                        assert(groups.drop_first()[j - 1] == groups[j]);
                    } else {
                        assert(rr[j - 1].0 == root);
                    }
                }
            }
        } else {
            let k = choose|k: int|
                0 <= k < groups.drop_first().len() && #[trigger] groups.drop_first()[k].0 == root;
            lemma_one_group_per_root(groups.drop_first(), root, file);
            lemma_add_group_keys(groups.drop_first(), root, file);
            let r = add_group_spec(groups, root, file);
            let rr = add_group_spec(groups.drop_first(), root, file);
            assert forall|i: int, j: int| 0 <= i < j < r.len() implies r[i].0 != r[j].0 by {
                if i > 0 {
                    assert(r[i] == rr[i - 1]);
                    assert(r[j] == rr[j - 1]);
                } else {
                    assert(r[j] == rr[j - 1]);
                    if j - 1 < groups.drop_first().len() {
                        assert(rr[j - 1].0 == groups.drop_first()[j - 1].0);
                        assert(groups.drop_first()[j - 1] == groups[j]);
                    } else {
                        assert(rr.len() == groups.drop_first().len() + 1);
                        assert(groups.drop_first()[k].0 == root);
                    }
                }
            }
        }
    }
}

/// Clone a list of strings.
fn clone_strings(v: &Vec<String>) -> (r: Vec<String>)
    ensures
        r@.len() == v@.len(),
        forall|j: int| 0 <= j < v@.len() ==> r@[j] == v@[j],
{
    let mut r: Vec<String> = Vec::new();
    let mut i: usize = 0;
    while i < v.len()
        invariant
            i <= v@.len(),
            r@.len() == i,
            forall|j: int| 0 <= j < i ==> r@[j] == v@[j],
        decreases v@.len() - i,
    {
        r.push(v[i].clone());
        i += 1;
    }
    r
}

/// Add one file to the batch of the project that owns it.
#[verifier::loop_isolation(false)]
pub fn add_rust_file(groups: Vec<(String, Vec<String>)>, root: &str, file: &str) -> (r: Vec<
    (String, Vec<String>),
>)
    ensures
        r.deep_view() == add_group_spec(groups.deep_view(), root@, file@),
{
    let ghost gv = groups.deep_view();
    let mut r: Vec<(String, Vec<String>)> = Vec::new();
    let mut i: usize = 0;
    proof {
        assert(gv.skip(0) =~= gv);
        assert(r.deep_view() =~~= Seq::<(Seq<char>, Seq<Seq<char>>)>::empty());
        assert(Seq::<(Seq<char>, Seq<Seq<char>>)>::empty() + add_group_spec(gv, root@, file@)
            =~= add_group_spec(gv, root@, file@));
    }
    while i < groups.len()
        invariant
            i <= groups@.len(),
            add_group_spec(gv, root@, file@) == r.deep_view() + add_group_spec(
                gv.skip(i as int),
                root@,
                file@,
            ),
        decreases groups@.len() - i,
    {
        proof {
            assert(gv.skip(i as int)[0] == gv[i as int]);
            assert(gv.skip(i as int).drop_first() =~= gv.skip(i + 1));
            assert(gv[i as int].0 == groups@[i as int].0@);
        }
        let gr = &groups[i];
        let rv = str_to_chars(root);
        let gn = str_to_chars(gr.0.as_str());
        if crate::chars::eq_chars(&gn, &rv) {
            let mut files = clone_strings(&gr.1);
            files.push(String::from_str(file));
            let name = gr.0.clone();
            let ghost old_dv = r.deep_view();
            r.push((name, files));
            proof {
                assert(r.deep_view() =~~= old_dv.push(
                    (gv[i as int].0, gv[i as int].1.push(file@)),
                ));
            }
            let mut k = i + 1;
            while k < groups.len()
                invariant
                    i + 1 <= k <= groups@.len(),
                    r.deep_view() =~~= old_dv.push((gv[i as int].0, gv[i as int].1.push(file@)))
                        + gv.subrange(i + 1, k as int),
                decreases groups@.len() - k,
            {
                let g2 = &groups[k];
                let name2 = g2.0.clone();
                let files2 = clone_strings(&g2.1);
                let ghost before = r.deep_view();
                r.push((name2, files2));
                k += 1;
                proof {
                    assert(gv[k - 1] == (groups@[k - 1].0@, groups@[k - 1].1.deep_view()));
                    assert(r.deep_view() =~~= before.push(gv[k - 1]));
                    assert(before.push(gv[k - 1]) =~= old_dv.push(
                        (gv[i as int].0, gv[i as int].1.push(file@)),
                    ) + gv.subrange(i + 1, k as int));
                }
            }
            proof {
                let modified = seq![(gv[i as int].0, gv[i as int].1.push(file@))] + gv.skip(i + 1);
                assert(gv.subrange(i + 1, groups@.len() as int) =~= gv.skip(i + 1));
                assert(old_dv.push((gv[i as int].0, gv[i as int].1.push(file@))) + gv.skip(i + 1)
                    =~= old_dv + modified);
                assert(add_group_spec(gv.skip(i as int), root@, file@) == modified);
                assert(r.deep_view() =~~= old_dv + modified);
            }
            return r;
        }
        let name = gr.0.clone();
        let files = clone_strings(&gr.1);
        let ghost old_dv = r.deep_view();
        r.push((name, files));
        proof {
            assert(r.deep_view() =~~= old_dv.push(gv[i as int]));
            assert(old_dv.push(gv[i as int]) + add_group_spec(gv.skip(i + 1), root@, file@)
                =~= old_dv + (seq![gv[i as int]] + add_group_spec(gv.skip(i + 1), root@, file@)));
        }
        i += 1;
    }
    proof {
        assert(gv.skip(groups@.len() as int).len() == 0);
    }
    let mut files: Vec<String> = Vec::new();
    files.push(String::from_str(file));
    let ghost old_dv = r.deep_view();
    r.push((String::from_str(root), files));
    proof {
        assert(r.deep_view() =~~= old_dv.push((root@, seq![file@])));
        assert(old_dv.push((root@, seq![file@])) =~= old_dv + seq![(root@, seq![file@])]);
    }
    r
}

/// Note a jvm project root as handled; reports whether it was new.
pub fn mark_java_root(seen: &mut Vec<String>, root: &str) -> (fresh: bool)
    ensures
        fresh == !has_line(old(seen).deep_view(), root@),
        fresh ==> final(seen).deep_view() == old(seen).deep_view().push(root@),
        !fresh ==> *final(seen) == *old(seen),
{
    let rv = str_to_chars(root);
    let present = contains_string(seen, &rv);
    if present {
        return false;
    }
    seen.push(String::from_str(root));
    proof {
        assert(seen.deep_view() =~~= old(seen).deep_view().push(root@));
    }
    true
}

/// Whether one of the strings of `v` holds the text `pat`.
fn contains_string(v: &Vec<String>, pat: &Vec<char>) -> (r: bool)
    ensures
        r == has_line(v.deep_view(), pat@),
{
    let mut i: usize = 0;
    while i < v.len()
        invariant
            i <= v@.len(),
            forall|j: int| 0 <= j < i ==> v.deep_view()[j] != pat@,
        decreases v@.len() - i,
    {
        let sv = str_to_chars(v[i].as_str());
        let same = crate::chars::eq_chars(&sv, pat);
        proof {
            assert(v.deep_view()[i as int] == v@[i as int]@);
        }
        if same {
            proof {
                assert(has_line(v.deep_view(), pat@));
            }
            return true;
        }
        i += 1;
    }
    proof {
        assert(!has_line(v.deep_view(), pat@));
    }
    false
}

/// The shape of a continue decision.
pub open spec fn is_continue_decision(d: Seq<char>) -> bool {
    match_at(d, "{\"continue\":true"@, 0)
}

/// The shape of a block decision.
pub open spec fn is_block_decision(d: Seq<char>) -> bool {
    match_at(d, "{\"decision\":\"block\""@, 0)
}

/// A continue decision is recognizably a continue and never a block,
/// whatever message it carries: input, resolution and tool-availability
/// conditions can therefore never block the caller.
pub proof fn lemma_continue_never_blocks(debug: bool, msg: Seq<char>)
    ensures
        is_continue_decision(continue_result_spec(debug, msg)),
        !is_block_decision(continue_result_spec(debug, msg)),
{
    reveal_strlit("{\"continue\":true");
    reveal_strlit("{\"decision\":\"block\"");
    reveal_strlit("{\"continue\":true}");
    reveal_strlit("{\"continue\":true,\"systemMessage\":\"");
    let d = continue_result_spec(debug, msg);
    let p = "{\"continue\":true"@;
    assert(p.len() == 16);
    if debug {
        let a = "{\"continue\":true,\"systemMessage\":\""@;
        assert(a.len() == 34);
        assert forall|k: int| 0 <= k < 16 implies d.subrange(0, 16)[k] == p[k] by {
            assert(d[k] == a[k]);
        }
        assert(d.subrange(0, 16) =~= p);
    } else {
        let a = "{\"continue\":true}"@;
        assert(a.len() == 17);
        assert forall|k: int| 0 <= k < 16 implies d.subrange(0, 16)[k] == p[k] by {
            assert(d[k] == a[k]);
        }
        assert(d.subrange(0, 16) =~= p);
    }
    let b = "{\"decision\":\"block\""@;
    assert(b.len() == 19);
    if is_block_decision(d) {
        assert(d.subrange(0, 19)[2] == d[2]);
        assert(d.subrange(0, 16)[2] == d[2]);
        assert(p[2] == 'c' && b[2] == 'd');
    }
}

/// A block decision is recognizably a block, and its reason quotes the
/// tool's escaped output: a failing run never passes silently.
pub proof fn lemma_block_shape(label: Seq<char>, linter: Seq<char>, output: Seq<char>)
    ensures
        is_block_decision(lint_block_spec(label, linter, output)),
        contains_seq(lint_block_spec(label, linter, output), escape_spec(output)),
{
    reveal_strlit("{\"decision\":\"block\"");
    reveal_strlit("{\"decision\":\"block\",\"reason\":\"");
    let d = lint_block_spec(label, linter, output);
    let b = "{\"decision\":\"block\""@;
    let a = "{\"decision\":\"block\",\"reason\":\""@;
    assert(b.len() == 19);
    assert(a.len() == 30);
    let inner = "[ralph-hook-lint] lint errors in "@ + escape_spec(label) + " using "@
        + escape_spec(linter) + ":\\n\\n"@ + escape_spec(output) + "\\n\\nFix lint errors."@;
    assert(d == a + inner + "\"}"@);
    assert forall|k: int| 0 <= k < 19 implies d.subrange(0, 19)[k] == b[k] by {
        assert(d[k] == a[k]);
    }
    assert(d.subrange(0, 19) =~= b);
    let off: int = (a.len() + "[ralph-hook-lint] lint errors in "@.len() + escape_spec(
        label,
    ).len() + " using "@.len() + escape_spec(linter).len() + ":\\n\\n"@.len()) as int;
    let e = escape_spec(output);
    assert forall|k: int| 0 <= k < e.len() implies d.subrange(off, off + e.len())[k] == e[k] by {
        assert(d[off + k] == inner[off - 30 + k]);
        assert(inner[off - 30 + k] == e[k]);
    }
    assert(d.subrange(off, off + e.len()) =~= e);
    assert(match_at(d, e, off));
    lemma_contains_iff_exists(d, e);
}

/// An event without a usable file path is answered with a continue
/// whose explanation names the missing field.
pub proof fn lemma_missing_path_is_continue(debug: bool)
    ensures
        is_continue_decision(continue_result_spec(debug, no_file_path_msg())),
        !is_block_decision(continue_result_spec(debug, no_file_path_msg())),
        contains_seq(no_file_path_msg(), "no file_path"@),
{
    lemma_continue_never_blocks(debug, no_file_path_msg());
    let m = no_file_path_msg();
    let a = "[ralph-hook-lint] "@;
    let p = "no file_path"@;
    let off: int = a.len() as int;
    assert forall|k: int| 0 <= k < p.len() implies m.subrange(off, off + p.len())[k] == p[k] by {
        assert(m[off + k] == p[k]);
    }
    assert(m.subrange(off, off + p.len()) =~= p);
    assert(match_at(m, p, off));
    lemma_contains_iff_exists(m, p);
}

/// A file of unrecognized type, or one outside any project, is answered
/// with a continue whose explanation says the file is unsupported or
/// without a project.
pub proof fn lemma_unsupported_is_continue(fp: Seq<char>, debug: bool)
    ensures
        is_continue_decision(continue_result_spec(debug, no_project_msg(fp))),
        !is_block_decision(continue_result_spec(debug, no_project_msg(fp))),
        contains_seq(no_project_msg(fp), "unsupported file type or no project found"@),
{
    lemma_continue_never_blocks(debug, no_project_msg(fp));
    let m = no_project_msg(fp);
    let a = "[ralph-hook-lint] skipping lint: "@;
    let p = "unsupported file type or no project found"@;
    let off: int = a.len() as int;
    assert forall|k: int| 0 <= k < p.len() implies m.subrange(off, off + p.len())[k] == p[k] by {
        assert(m[off + k] == p[k]);
    }
    assert(m.subrange(off, off + p.len()) =~= p);
    assert(match_at(m, p, off));
    lemma_contains_iff_exists(m, p);
}

} // verus!
