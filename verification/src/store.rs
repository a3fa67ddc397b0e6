//! Session store state transitions.
//!
//! Edits belonging to one session are collected across separate process
//! invocations and linted together later.  The durable record is one
//! ordered, duplicate-free list of file paths per session, stored under
//! a well-known name.  The state transitions are verified here over the
//! record's contents; the caller reads and writes the backing file and
//! deletes it on drain.

use vstd::prelude::*;

verus! {

use crate::chars::{chars_to_string, push_str_chars};

/// The backing file name for a session: `ralph-lint-<session_id>.txt`,
/// placed by the caller in the shared temporary-file area.
pub fn session_file_name(session_id: &str) -> (r: String)
    ensures
        r@ == "ralph-lint-"@ + session_id@ + ".txt"@,
{
    let mut v: Vec<char> = Vec::new();
    push_str_chars(&mut v, "ralph-lint-");
    push_str_chars(&mut v, session_id);
    push_str_chars(&mut v, ".txt");
    proof {
        assert(v@ =~= "ralph-lint-"@ + session_id@ + ".txt"@);
    }
    chars_to_string(&v)
}

/// One of the recorded lines equals `p`.
pub open spec fn has_line(lines: Seq<Seq<char>>, p: Seq<char>) -> bool {
    exists|i: int| 0 <= i < lines.len() && lines[i] == p
}

/// Recording a path: a no-op when already present, else appended.
pub open spec fn record_spec(lines: Seq<Seq<char>>, p: Seq<char>) -> Seq<Seq<char>> {
    if has_line(lines, p) {
        lines
    } else {
        lines.push(p)
    }
}

/// No two recorded lines are equal.
pub open spec fn no_dups(lines: Seq<Seq<char>>) -> bool {
    forall|i: int, j: int| 0 <= i < j < lines.len() ==> lines[i] != lines[j]
}

/// Record `file_path` in the session's lines, skipping it if already
/// present.
pub fn record_path(lines: &Vec<String>, file_path: &str) -> (r: Vec<String>)
    ensures
        r.deep_view() == record_spec(lines.deep_view(), file_path@),
{
    let mut i: usize = 0;
    while i < lines.len()
        invariant
            i <= lines@.len(),
            lines.deep_view().len() == lines@.len(),
            forall|j: int| 0 <= j < i ==> lines.deep_view()[j] != file_path@,
        decreases lines@.len() - i,
    {
        let fps = String::from_str(file_path);
        if lines[i].eq(&fps) {
            proof {
                assert(lines.deep_view()[i as int] == file_path@);
                assert(has_line(lines.deep_view(), file_path@));
            }
            let mut r: Vec<String> = Vec::new();
            let mut k: usize = 0;
            while k < lines.len()
                invariant
                    k <= lines@.len(),
                    r@.len() == k,
                    forall|j: int| 0 <= j < k ==> r@[j] == lines@[j],
                decreases lines@.len() - k,
            {
                r.push(lines[k].clone());
                k += 1;
            }
            proof {
                assert(r.deep_view() =~~= lines.deep_view());
            }
            return r;
        }
        i += 1;
    }
    proof {
        assert(!has_line(lines.deep_view(), file_path@));
    }
    let mut r: Vec<String> = Vec::new();
    let mut k: usize = 0;
    while k < lines.len()
        invariant
            k <= lines@.len(),
            r@.len() == k,
            forall|j: int| 0 <= j < k ==> r@[j] == lines@[j],
        decreases lines@.len() - k,
    {
        r.push(lines[k].clone());
        k += 1;
    }
    r.push(String::from_str(file_path));
    proof {
        assert(r.deep_view() =~~= lines.deep_view().push(file_path@));
    }
    r
}

/// Recording preserves the store's discipline: a present path changes
/// nothing; a new one is appended at the end; the record stays
/// duplicate-free; earlier entries keep their positions (first-insertion
/// order).
pub proof fn lemma_record_discipline(lines: Seq<Seq<char>>, p: Seq<char>)
    ensures
        record_spec(record_spec(lines, p), p) == record_spec(lines, p),
        !has_line(lines, p) ==> record_spec(lines, p) == lines.push(p),
        no_dups(lines) ==> no_dups(record_spec(lines, p)),
        forall|i: int| 0 <= i < lines.len() ==> record_spec(lines, p)[i] == lines[i],
{
    let r1 = record_spec(lines, p);
    if has_line(lines, p) {
    } else {
        assert(r1[lines.len() as int] == p);
        assert(has_line(r1, p));
        if no_dups(lines) {
            assert forall|i: int, j: int| 0 <= i < j < r1.len() implies r1[i] != r1[j] by {
                if j == lines.len() {
                    assert(r1[i] == lines[i]);
                    if lines[i] == p {
                        assert(has_line(lines, p));
                    }
                }
            }
        }
    }
}

/// The lines kept by a drain: the non-empty ones, in order.
pub open spec fn keep_nonempty(lines: Seq<Seq<char>>) -> Seq<Seq<char>>
    decreases lines.len(),
{
    if lines.len() == 0 {
        Seq::empty()
    } else {
        (if lines[0].len() > 0 {
            seq![lines[0]]
        } else {
            Seq::empty()
        }) + keep_nonempty(lines.drop_first())
    }
}

/// What a drain yields and leaves behind: the non-empty recorded paths,
/// and no record at all.
pub open spec fn drain_spec(state: Option<Seq<Seq<char>>>) -> (Seq<Seq<char>>, Option<
    Seq<Seq<char>>,
>) {
    match state {
        None => (Seq::empty(), None),
        Some(lines) => (keep_nonempty(lines), None),
    }
}

/// Drain the session's record: the recorded non-empty paths come out,
/// and the record ceases to exist.  An absent record yields an empty
/// list, never an error.
#[verifier::loop_isolation(false)]
pub fn read_and_cleanup(state: Option<Vec<String>>) -> (r: (Vec<String>, Option<Vec<String>>))
    ensures
        r.1 is None,
        match state {
            None => r.0.deep_view() == Seq::<Seq<char>>::empty(),
            Some(lines) => r.0.deep_view() == keep_nonempty(lines.deep_view()),
        },
{
    let lines = match state {
        None => {
            let empty: Vec<String> = Vec::new();
            proof {
                assert(empty.deep_view() =~~= Seq::<Seq<char>>::empty());
            }
            return (empty, None);
        },
        Some(lines) => lines,
    };
    let ghost all = lines.deep_view();
    let mut r: Vec<String> = Vec::new();
    let mut i: usize = 0;
    proof {
        assert(all.skip(0) =~= all);
        assert(Seq::<Seq<char>>::empty() + keep_nonempty(all) =~= keep_nonempty(all));
        assert(r.deep_view() =~~= Seq::<Seq<char>>::empty());
    }
    while i < lines.len()
        invariant
            i <= lines@.len(),
            keep_nonempty(all) == r.deep_view() + keep_nonempty(all.skip(i as int)),
        decreases lines@.len() - i,
    {
        proof {
            assert(all.skip(i as int)[0] == all[i as int]);
            assert(all.skip(i as int).drop_first() =~= all.skip(i + 1));
        }
        let line = &lines[i];
        if line.as_str().unicode_len() > 0 {
            let ghost old_dv = r.deep_view();
            r.push(line.clone());
            proof {
                assert(r.deep_view() =~~= old_dv.push(all[i as int]));
                assert(old_dv.push(all[i as int]) + keep_nonempty(all.skip(i + 1)) =~= old_dv + (
                seq![all[i as int]] + keep_nonempty(all.skip(i + 1))));
            }
        } else {
            proof {
                assert(all[i as int].len() == 0);
                assert(Seq::<Seq<char>>::empty() + keep_nonempty(all.skip(i + 1))
                    =~= keep_nonempty(all.skip(i + 1)));
            }
        }
        i += 1;
    }
    proof {
        assert(all.skip(lines@.len() as int).len() == 0);
        assert(r.deep_view() + keep_nonempty(all.skip(lines@.len() as int)) =~= r.deep_view());
    }
    (r, None)
}

/// Drain is exactly-once: a drain leaves no record behind, and a second
/// drain of the same session yields nothing.
pub proof fn lemma_drain_exactly_once(state: Option<Seq<Seq<char>>>)
    ensures
        drain_spec(state).1 is None,
        drain_spec(drain_spec(state).1).0 == Seq::<Seq<char>>::empty(),
{
}

/// What a drain yields was recorded.
pub proof fn lemma_drained_was_recorded(lines: Seq<Seq<char>>, x: Seq<char>)
    ensures
        keep_nonempty(lines).contains(x) ==> lines.contains(x),
    decreases lines.len(),
{
    if lines.len() > 0 {
        lemma_drained_was_recorded(lines.drop_first(), x);
        let r = keep_nonempty(lines);
        let rr = keep_nonempty(lines.drop_first());
        if r.contains(x) {
            let k = choose|k: int| 0 <= k < r.len() && r[k] == x;
            if lines[0].len() > 0 {
                if k == 0 {
                    assert(lines.contains(x)) by {
                        assert(lines[0] == x);
                    }
                } else {
                    assert(r[k] == rr[k - 1]);
                    assert(rr.contains(x));
                    let m = choose|m: int| 0 <= m < rr.len() && rr[m] == x;
                    assert(lines.drop_first().contains(x));
                    let n = choose|n: int|
                        0 <= n < lines.drop_first().len() && lines.drop_first()[n] == x;
                    assert(lines[n + 1] == x);
                }
            } else {
                assert(r[k] == rr[k]);
                assert(rr.contains(x));
                let m = choose|m: int| 0 <= m < rr.len() && rr[m] == x;
                assert(lines.drop_first().contains(x));
                let n = choose|n: int|
                    0 <= n < lines.drop_first().len() && lines.drop_first()[n] == x;
                assert(lines[n + 1] == x);
            }
        }
    }
}

/// A duplicate-free record drains to a duplicate-free list: each
/// recorded path comes out at most once.
pub proof fn lemma_drain_no_dups(lines: Seq<Seq<char>>)
    requires
        no_dups(lines),
    ensures
        no_dups(keep_nonempty(lines)),
    decreases lines.len(),
{
    if lines.len() > 0 {
        let rest = lines.drop_first();
        assert forall|i: int, j: int| 0 <= i < j < rest.len() implies rest[i] != rest[j] by {
            assert(rest[i] == lines[i + 1]);
            assert(rest[j] == lines[j + 1]);
        }
        lemma_drain_no_dups(rest);
        let r = keep_nonempty(lines);
        let rr = keep_nonempty(rest);
        if lines[0].len() > 0 {
            assert forall|i: int, j: int| 0 <= i < j < r.len() implies r[i] != r[j] by {
                if i == 0 {
                    assert(r[0] == lines[0]);
                    assert(r[j] == rr[j - 1]);
                    if r[j] == lines[0] {
                        assert(rr.contains(lines[0]));
                        lemma_drained_was_recorded(rest, lines[0]);
                        let n = choose|n: int| 0 <= n < rest.len() && rest[n] == lines[0];
                        assert(lines[n + 1] == lines[0]);
                    }
                } else {
                    assert(r[i] == rr[i - 1]);
                    assert(r[j] == rr[j - 1]);
                }
            }
        } else {
            assert(r =~= rr);
        }
    }
}

} // verus!
