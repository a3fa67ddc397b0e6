//! Field extraction from event payloads.
//!
//! The hook receives a loosely JSON-shaped payload and needs a small
//! fixed set of string fields from it.  Rather than a full parser, a
//! minimal scanner locates `"<key>":` anywhere in the text, skips
//! whitespace, and decodes one JSON-style quoted string.  Unrecognized
//! escapes pass through literally; a missing key, a non-string value, or
//! an unterminated string all yield "absent".

use vstd::prelude::*;

verus! {

use crate::chars::{
    find_from, find_subseq, is_space, is_space_char, lemma_trim_start_index, str_to_chars,
    chars_to_string, trim_start_spec,
};

/// The text `"key":` that introduces a field.
pub open spec fn marker_of(key: Seq<char>) -> Seq<char> {
    seq!['"'] + key + seq!['"', ':']
}

/// Decode a JSON-style quoted string body (everything after the opening
/// quote).  Recognizes `\n \r \t \\ \" \/`; any other escape passes
/// through as the two characters themselves.  `None` when the closing
/// quote never comes.
pub open spec fn decode_quoted(s: Seq<char>) -> Option<Seq<char>>
    decreases s.len(),
{
    if s.len() == 0 {
        None
    } else if s[0] == '"' {
        Some(Seq::empty())
    } else if s[0] == '\\' {
        if s.len() == 1 {
            None
        } else {
            let decoded = decode_escape(s[1]);
            match decode_quoted(s.subrange(2, s.len() as int)) {
                Some(t) => Some(decoded + t),
                None => None,
            }
        }
    } else {
        match decode_quoted(s.drop_first()) {
            Some(t) => Some(seq![s[0]] + t),
            None => None,
        }
    }
}

/// What one escape sequence `\e` stands for.
pub open spec fn decode_escape(e: char) -> Seq<char> {
    if e == 'n' {
        seq!['\n']
    } else if e == 'r' {
        seq!['\r']
    } else if e == 't' {
        seq!['\t']
    } else if e == '\\' {
        seq!['\\']
    } else if e == '"' {
        seq!['"']
    } else if e == '/' {
        seq!['/']
    } else {
        seq!['\\', e]
    }
}

/// The value of field `key` in `json`: the first occurrence of the
/// marker decides; the value must open with a quote after optional
/// whitespace, and must close before the payload ends.
pub open spec fn extract_field_spec(json: Seq<char>, key: Seq<char>) -> Option<Seq<char>> {
    match find_from(json, marker_of(key), 0) {
        None => None,
        Some(i) => {
            let rest = trim_start_spec(
                json.subrange(i + marker_of(key).len(), json.len() as int),
            );
            if rest.len() == 0 || rest[0] != '"' {
                None
            } else {
                decode_quoted(rest.drop_first())
            }
        },
    }
}

/// Extract a string field value by key name from raw payload text.
#[verifier::loop_isolation(false)]
pub fn extract_string_field(json: &str, field_name: &str) -> (r: Option<String>)
    ensures
        match r {
            Some(s) => extract_field_spec(json@, field_name@) == Some(s@),
            None => extract_field_spec(json@, field_name@) is None,
        },
{
    let jv = str_to_chars(json);
    let kv = str_to_chars(field_name);
    let mut marker: Vec<char> = Vec::new();
    marker.push('"');
    let mut ki: usize = 0;
    while ki < kv.len()
        invariant
            ki <= kv@.len(),
            marker@ == seq!['"'] + kv@.subrange(0, ki as int),
        decreases kv@.len() - ki,
    {
        marker.push(kv[ki]);
        ki += 1;
        proof {
            assert(marker@ =~= seq!['"'] + kv@.subrange(0, ki as int));
        }
    }
    marker.push('"');
    marker.push(':');
    proof {
        assert(kv@.subrange(0, kv@.len() as int) =~= kv@);
        assert(marker@ =~= marker_of(field_name@));
    }
    let i = match find_subseq(&jv, &marker, 0) {
        None => {
            return None;
        },
        Some(i) => i,
    };
    proof {
        crate::chars::lemma_find_from_props(jv@, marker@, 0);
        assert(jv.len() == jv@.len());
    }
    let start = i + marker.len();
    let mut a = start;
    while a < jv.len() && is_space_char(jv[a])
        invariant
            start <= a <= jv@.len(),
            forall|j: int| start <= j < a ==> is_space(jv@[j]),
        decreases jv@.len() - a,
    {
        a += 1;
    }
    proof {
        let sub = jv@.subrange(start as int, jv@.len() as int);
        assert forall|j: int| 0 <= j < a - start implies is_space(sub[j]) by {
            assert(sub[j] == jv@[start + j]);
        }
        lemma_trim_start_index(sub, a - start);
        assert(trim_start_spec(sub) =~= jv@.subrange(a as int, jv@.len() as int));
    }
    if a >= jv.len() {
        return None;
    }
    if jv[a] != '"' {
        return None;
    }
    let ghost body = jv@.subrange(a + 1, jv@.len() as int);
    proof {
        let rest = jv@.subrange(a as int, jv@.len() as int);
        assert(rest[0] == jv@[a as int]);
        assert(rest.drop_first() =~= body);
    }
    let mut out: Vec<char> = Vec::new();
    let mut p = a + 1;
    while p < jv.len()
        invariant
            a + 1 <= p <= jv@.len(),
            jv@.len() == jv.len(),
            body == jv@.subrange(a + 1, jv@.len() as int),
            decode_quoted(body) == match decode_quoted(jv@.subrange(p as int, jv@.len() as int)) {
                Some(t) => Some(out@ + t),
                None => None::<Seq<char>>,
            },
        decreases jv@.len() - p,
    {
        let ghost cur = jv@.subrange(p as int, jv@.len() as int);
        let c = jv[p];
        proof {
            assert(cur[0] == jv@[p as int]);
        }
        if c == '"' {
            proof {
                assert(out@ + Seq::<char>::empty() =~= out@);
            }
            return Some(chars_to_string(&out));
        }
        if c == '\\' {
            if p + 1 >= jv.len() {
                proof {
                    assert(cur.len() == 1);
                }
                return None;
            }
            let e = jv[p + 1];
            proof {
                assert(cur[1] == jv@[p + 1]);
                assert(cur.subrange(2, cur.len() as int) =~= jv@.subrange(
                    p + 2,
                    jv@.len() as int,
                ));
            }
            let ghost old_out = out@;
            if e == 'n' {
                out.push('\n');
            } else if e == 'r' {
                out.push('\r');
            } else if e == 't' {
                out.push('\t');
            } else if e == '\\' {
                out.push('\\');
            } else if e == '"' {
                out.push('"');
            } else if e == '/' {
                out.push('/');
            } else {
                out.push('\\');
                out.push(e);
            }
            proof {
                assert(out@ =~= old_out + decode_escape(jv@[p + 1]));
                if decode_quoted(jv@.subrange(p + 2, jv@.len() as int)) is Some {
                    let t = decode_quoted(jv@.subrange(p + 2, jv@.len() as int))->0;
                    assert(old_out + (decode_escape(jv@[p + 1]) + t) =~= out@ + t);
                }
            }
            p = p + 2;
        } else {
            proof {
                assert(cur.drop_first() =~= jv@.subrange(p + 1, jv@.len() as int));
            }
            let ghost old_out = out@;
            out.push(c);
            proof {
                assert(out@ =~= old_out + seq![jv@[p as int]]);
                if decode_quoted(jv@.subrange(p + 1, jv@.len() as int)) is Some {
                    let t = decode_quoted(jv@.subrange(p + 1, jv@.len() as int))->0;
                    assert(old_out + (seq![jv@[p as int]] + t) =~= out@ + t);
                }
            }
            p = p + 1;
        }
    }
    proof {
        assert(jv@.subrange(p as int, jv@.len() as int).len() == 0);
    }
    None
}

/// Extract `file_path`, as in `{"tool_input":{"file_path":"/some/path"}}`.
pub fn extract_file_path(json: &str) -> (r: Option<String>)
    ensures
        match r {
            Some(s) => extract_field_spec(json@, "file_path"@) == Some(s@),
            None => extract_field_spec(json@, "file_path"@) is None,
        },
{
    extract_string_field(json, "file_path")
}

/// Extract `session_id`, as in `{"session_id":"abc123"}`.
pub fn extract_session_id(json: &str) -> (r: Option<String>)
    ensures
        match r {
            Some(s) => extract_field_spec(json@, "session_id"@) == Some(s@),
            None => extract_field_spec(json@, "session_id"@) is None,
        },
{
    extract_string_field(json, "session_id")
}

/// Extract `reason` from a block decision like
/// `{"decision":"block","reason":"..."}`.
pub fn extract_reason_field(json: &str) -> (r: Option<String>)
    ensures
        match r {
            Some(s) => extract_field_spec(json@, "reason"@) == Some(s@),
            None => extract_field_spec(json@, "reason"@) is None,
        },
{
    extract_string_field(json, "reason")
}

} // verus!
