//! Decision text formatting.
//!
//! The hook answers with exactly one single-line decision: a "continue"
//! or a "block".  All caller-controlled text placed inside the quotes is
//! escaped: quote, backslash, newline, carriage return and tab get their
//! two-character escapes, any other control character becomes a
//! lower-case `\u00XX` escape, and everything else passes through.

use vstd::prelude::*;

verus! {

use crate::chars::{
    chars_to_string, push_str_chars, push_vec_chars, str_to_chars, trim_chars, trim_spec,
};

/// A control character: the C0 range, delete, and the C1 range.
pub open spec fn is_control(c: char) -> bool {
    (c as u32) <= 0x1F || (0x7F <= (c as u32) && (c as u32) <= 0x9F)
}

/// The lower-case hex digit for `n` (0 to 15).
pub open spec fn hex_digit(n: int) -> char {
    if n == 0 {
        '0'
    } else if n == 1 {
        '1'
    } else if n == 2 {
        '2'
    } else if n == 3 {
        '3'
    } else if n == 4 {
        '4'
    } else if n == 5 {
        '5'
    } else if n == 6 {
        '6'
    } else if n == 7 {
        '7'
    } else if n == 8 {
        '8'
    } else if n == 9 {
        '9'
    } else if n == 10 {
        'a'
    } else if n == 11 {
        'b'
    } else if n == 12 {
        'c'
    } else if n == 13 {
        'd'
    } else if n == 14 {
        'e'
    } else {
        'f'
    }
}

/// Four lower-case hex digits for a value below 0x10000.
pub open spec fn hex4(v: int) -> Seq<char> {
    seq![
        hex_digit(v / 4096 % 16),
        hex_digit(v / 256 % 16),
        hex_digit(v / 16 % 16),
        hex_digit(v % 16),
    ]
}

/// The escaped form of a single character.
pub open spec fn escape_char(c: char) -> Seq<char> {
    if c == '"' {
        seq!['\\', '"']
    } else if c == '\\' {
        seq!['\\', '\\']
    } else if c == '\n' {
        seq!['\\', 'n']
    } else if c == '\r' {
        seq!['\\', 'r']
    } else if c == '\t' {
        seq!['\\', 't']
    } else if is_control(c) {
        seq!['\\', 'u'] + hex4(c as u32 as int)
    } else {
        seq![c]
    }
}

/// The escaped form of a text.
pub open spec fn escape_spec(s: Seq<char>) -> Seq<char>
    decreases s.len(),
{
    if s.len() == 0 {
        Seq::empty()
    } else {
        escape_char(s[0]) + escape_spec(s.drop_first())
    }
}

/// Escaping one more character extends the escaped text.
pub proof fn lemma_escape_push(s: Seq<char>, c: char)
    ensures
        escape_spec(s.push(c)) == escape_spec(s) + escape_char(c),
    decreases s.len(),
{
    if s.len() == 0 {
        assert(s.push(c)[0] == c);
        assert(s.push(c).drop_first() =~= Seq::<char>::empty());
        assert(escape_spec(s.push(c).drop_first()) == Seq::<char>::empty());
        assert(escape_spec(s) == Seq::<char>::empty());
        assert(escape_spec(s.push(c)) == escape_char(c) + Seq::<char>::empty());
        assert(Seq::<char>::empty() + escape_char(c) =~= escape_char(c));
        assert(escape_char(c) + Seq::<char>::empty() =~= escape_char(c));
    } else {
        assert(s.push(c)[0] == s[0]);
        assert(s.push(c).drop_first() =~= s.drop_first().push(c));
        lemma_escape_push(s.drop_first(), c);
        assert(escape_char(s[0]) + (escape_spec(s.drop_first()) + escape_char(c)) =~= (escape_char(
            s[0],
        ) + escape_spec(s.drop_first())) + escape_char(c));
    }
    assert(escape_spec(s.push(c)) =~= escape_spec(s) + escape_char(c));
}

/// The numeric value of a hex digit, or -1.
pub open spec fn hex_val(c: char) -> int {
    if c == '0' {
        0
    } else if c == '1' {
        1
    } else if c == '2' {
        2
    } else if c == '3' {
        3
    } else if c == '4' {
        4
    } else if c == '5' {
        5
    } else if c == '6' {
        6
    } else if c == '7' {
        7
    } else if c == '8' {
        8
    } else if c == '9' {
        9
    } else if c == 'a' || c == 'A' {
        10
    } else if c == 'b' || c == 'B' {
        11
    } else if c == 'c' || c == 'C' {
        12
    } else if c == 'd' || c == 'D' {
        13
    } else if c == 'e' || c == 'E' {
        14
    } else if c == 'f' || c == 'F' {
        15
    } else {
        -1
    }
}

/// Undo escaping by the standard JSON string rules: the short escapes,
/// and `\uXXXX` for scalar values outside the surrogate range (surrogate
/// pairs do not occur in escaped output and are not decoded).
pub open spec fn unescape_spec(s: Seq<char>) -> Option<Seq<char>>
    decreases s.len(),
{
    if s.len() == 0 {
        Some(Seq::empty())
    } else if s[0] == '\\' {
        if s.len() < 2 {
            None
        } else if s[1] == 'u' {
            if s.len() < 6 {
                None
            } else if hex_val(s[2]) < 0 || hex_val(s[3]) < 0 || hex_val(s[4]) < 0 || hex_val(s[5])
                < 0 {
                None
            } else {
                let v = hex_val(s[2]) * 4096 + hex_val(s[3]) * 256 + hex_val(s[4]) * 16 + hex_val(
                    s[5],
                );
                if 0xD800 <= v && v < 0xE000 {
                    None
                } else {
                    match unescape_spec(s.subrange(6, s.len() as int)) {
                        Some(t) => Some(seq![(v as u32) as char] + t),
                        None => None,
                    }
                }
            }
        } else {
            let d: Option<char> = if s[1] == 'n' {
                Some('\n')
            } else if s[1] == 'r' {
                Some('\r')
            } else if s[1] == 't' {
                Some('\t')
            } else if s[1] == 'b' {
                Some('\u{8}')
            } else if s[1] == 'f' {
                Some('\u{c}')
            } else if s[1] == '"' {
                Some('"')
            } else if s[1] == '\\' {
                Some('\\')
            } else if s[1] == '/' {
                Some('/')
            } else {
                None
            };
            match d {
                None => None,
                Some(c) => match unescape_spec(s.subrange(2, s.len() as int)) {
                    Some(t) => Some(seq![c] + t),
                    None => None,
                },
            }
        }
    } else {
        match unescape_spec(s.drop_first()) {
            Some(t) => Some(seq![s[0]] + t),
            None => None,
        }
    }
}

/// Escaping round-trip: unescaping escaped text by the standard JSON
/// rules reproduces the original text exactly.
pub proof fn lemma_escape_round_trip(s: Seq<char>)
    ensures
        unescape_spec(escape_spec(s)) == Some(s),
    decreases s.len(),
{
    if s.len() == 0 {
    } else {
        let c = s[0];
        let rest = s.drop_first();
        lemma_escape_round_trip(rest);
        let e = escape_char(c);
        let whole = escape_spec(s);
        assert(whole == e + escape_spec(rest));
        if c == '"' || c == '\\' || c == '\n' || c == '\r' || c == '\t' {
            assert(whole[0] == '\\');
            assert(whole[1] == e[1]);
            assert(whole.subrange(2, whole.len() as int) =~= escape_spec(rest));
            assert(seq![c] + rest =~= s);
        } else if is_control(c) {
            let v = c as u32 as int;
            assert(e == seq!['\\', 'u'] + hex4(v));
            assert(whole.len() >= 6);
            assert(whole[0] == '\\' && whole[1] == 'u');
            assert(whole[2] == hex_digit(v / 4096 % 16));
            assert(whole[3] == hex_digit(v / 256 % 16));
            assert(whole[4] == hex_digit(v / 16 % 16));
            assert(whole[5] == hex_digit(v % 16));
            lemma_hex_digit_val(v / 4096 % 16);
            lemma_hex_digit_val(v / 256 % 16);
            lemma_hex_digit_val(v / 16 % 16);
            lemma_hex_digit_val(v % 16);
            assert(v < 0x10000) by {
                assert(c as u32 <= 0x9F);
            }
            assert(hex_val(whole[2]) * 4096 + hex_val(whole[3]) * 256 + hex_val(whole[4]) * 16
                + hex_val(whole[5]) == v) by {
                assert(v / 4096 % 16 == v / 4096) by {
                    assert(v < 0x10000);
                };
                assert((v / 4096) * 4096 + (v / 256 % 16) * 256 + (v / 16 % 16) * 16 + v % 16
                    == v) by (nonlinear_arith)
                    requires
                        0 <= v < 0x10000,
                ;
            }
            assert(!(0xD800 <= v && v < 0xE000));
            assert(whole.subrange(6, whole.len() as int) =~= escape_spec(rest));
            assert((v as u32) as char == c) by {
                vstd::utf8::char_u32_cast(c, c as u32);
                assert(v as u32 == c as u32);
            }
            assert(seq![c] + rest =~= s);
        } else {
            assert(e == seq![c]);
            assert(whole[0] == c);
            assert(whole[0] != '\\');
            assert(whole.drop_first() =~= escape_spec(rest));
            assert(seq![c] + rest =~= s);
        }
    }
}

/// `hex_val` inverts `hex_digit` on digit values.
proof fn lemma_hex_digit_val(n: int)
    requires
        0 <= n < 16,
    ensures
        hex_val(hex_digit(n)) == n,
{
}

/// The lower-case hex digit character for `n` (0 to 15).
fn hex_digit_char(n: u32) -> (r: char)
    requires
        n < 16,
    ensures
        r == hex_digit(n as int),
{
    if n == 0 {
        '0'
    } else if n == 1 {
        '1'
    } else if n == 2 {
        '2'
    } else if n == 3 {
        '3'
    } else if n == 4 {
        '4'
    } else if n == 5 {
        '5'
    } else if n == 6 {
        '6'
    } else if n == 7 {
        '7'
    } else if n == 8 {
        '8'
    } else if n == 9 {
        '9'
    } else if n == 10 {
        'a'
    } else if n == 11 {
        'b'
    } else if n == 12 {
        'c'
    } else if n == 13 {
        'd'
    } else if n == 14 {
        'e'
    } else {
        'f'
    }
}

/// Escape every character of `v`.
#[verifier::loop_isolation(false)]
pub fn escape_chars(v: &Vec<char>) -> (r: Vec<char>)
    ensures
        r@ == escape_spec(v@),
{
    let mut r: Vec<char> = Vec::new();
    let mut i: usize = 0;
    while i < v.len()
        invariant
            i <= v@.len(),
            r@ == escape_spec(v@.subrange(0, i as int)),
        decreases v@.len() - i,
    {
        let c = v[i];
        if c == '"' {
            r.push('\\');
            r.push('"');
        } else if c == '\\' {
            r.push('\\');
            r.push('\\');
        } else if c == '\n' {
            r.push('\\');
            r.push('n');
        } else if c == '\r' {
            r.push('\\');
            r.push('r');
        } else if c == '\t' {
            r.push('\\');
            r.push('t');
        } else {
            let u = c as u32;
            if u <= 0x1F || (0x7F <= u && u <= 0x9F) {
                r.push('\\');
                r.push('u');
                r.push(hex_digit_char(u / 4096 % 16));
                r.push(hex_digit_char(u / 256 % 16));
                r.push(hex_digit_char(u / 16 % 16));
                r.push(hex_digit_char(u % 16));
            } else {
                r.push(c);
            }
        }
        proof {
            lemma_escape_push(v@.subrange(0, i as int), v@[i as int]);
            assert(v@.subrange(0, i + 1) =~= v@.subrange(0, i as int).push(v@[i as int]));
            assert(r@ =~= escape_spec(v@.subrange(0, i as int)) + escape_char(v@[i as int]));
        }
        i += 1;
    }
    proof {
        assert(v@.subrange(0, v@.len() as int) =~= v@);
    }
    r
}

/// Escape a string for placement inside the quotes of a decision line.
pub fn escape_json(s: &str) -> (r: String)
    ensures
        r@ == escape_spec(s@),
{
    let v = str_to_chars(s);
    let e = escape_chars(&v);
    chars_to_string(&e)
}

/// The continue decision line: bare, or carrying a system message in
/// verbose mode.
pub open spec fn continue_result_spec(debug: bool, msg: Seq<char>) -> Seq<char> {
    if debug {
        "{\"continue\":true,\"systemMessage\":\""@ + escape_spec(msg) + "\"}"@
    } else {
        "{\"continue\":true}"@
    }
}

/// The block decision line around already-rendered reason content.
pub open spec fn block_result_spec(inner: Seq<char>) -> Seq<char> {
    "{\"decision\":\"block\",\"reason\":\""@ + inner + "\"}"@
}

/// Build a continue response, including `systemMessage` only in debug mode.
pub fn continue_result(debug: bool, message: &str) -> (r: String)
    ensures
        r@ == continue_result_spec(debug, message@),
{
    if debug {
        let mut out: Vec<char> = Vec::new();
        push_str_chars(&mut out, "{\"continue\":true,\"systemMessage\":\"");
        let mv = str_to_chars(message);
        let ev = escape_chars(&mv);
        push_vec_chars(&mut out, &ev);
        push_str_chars(&mut out, "\"}");
        chars_to_string(&out)
    } else {
        let mut out: Vec<char> = Vec::new();
        push_str_chars(&mut out, "{\"continue\":true}");
        proof {
            assert(Seq::<char>::empty() + "{\"continue\":true}"@ =~= "{\"continue\":true}"@);
        }
        chars_to_string(&out)
    }
}

/// Standard output and standard error combined: both when both are
/// non-empty (joined by a newline), else whichever is present.
pub open spec fn combined_output_spec(o: Seq<char>, e: Seq<char>) -> Seq<char> {
    if o.len() > 0 && e.len() > 0 {
        o + seq!['\n'] + e
    } else if o.len() > 0 {
        o
    } else {
        e
    }
}

/// The message on a passing lint run.
pub open spec fn lint_passed_msg_spec(file_path: Seq<char>, linter: Seq<char>) -> Seq<char> {
    "[ralph-hook-lint] lint passed for "@ + file_path + " using "@ + linter + "."@
}

/// The block decision for a failing lint run.
pub open spec fn lint_block_spec(label: Seq<char>, linter: Seq<char>, output: Seq<char>) -> Seq<
    char,
> {
    block_result_spec(
        "[ralph-hook-lint] lint errors in "@ + escape_spec(label) + " using "@ + escape_spec(
            linter,
        ) + ":\\n\\n"@ + escape_spec(output) + "\\n\\nFix lint errors."@,
    )
}

/// Normalize one lint tool run into a decision: success continues,
/// failure blocks with the tool's combined, trimmed output as reason.
pub fn output_lint_result(
    linter: &str,
    file_path: &str,
    stdout: &str,
    stderr: &str,
    success: bool,
    debug: bool,
) -> (r: String)
    ensures
        success ==> r@ == continue_result_spec(
            debug,
            lint_passed_msg_spec(file_path@, linter@),
        ),
        !success ==> r@ == lint_block_spec(
            file_path@,
            linter@,
            trim_spec(combined_output_spec(stdout@, stderr@)),
        ),
{
    if success {
        let mut msg: Vec<char> = Vec::new();
        push_str_chars(&mut msg, "[ralph-hook-lint] lint passed for ");
        push_str_chars(&mut msg, file_path);
        push_str_chars(&mut msg, " using ");
        push_str_chars(&mut msg, linter);
        push_str_chars(&mut msg, ".");
        let m = chars_to_string(&msg);
        proof {
            assert(msg@ =~= lint_passed_msg_spec(file_path@, linter@));
        }
        continue_result(debug, m.as_str())
    } else {
        let ov = str_to_chars(stdout);
        let ev = str_to_chars(stderr);
        let mut combined: Vec<char> = Vec::new();
        if ov.len() > 0 && ev.len() > 0 {
            push_vec_chars(&mut combined, &ov);
            combined.push('\n');
            push_vec_chars(&mut combined, &ev);
            proof {
                assert(combined@ =~= combined_output_spec(stdout@, stderr@));
            }
        } else if ov.len() > 0 {
            push_vec_chars(&mut combined, &ov);
            proof {
                assert(combined@ =~= combined_output_spec(stdout@, stderr@));
            }
        } else {
            push_vec_chars(&mut combined, &ev);
            proof {
                assert(combined@ =~= combined_output_spec(stdout@, stderr@));
            }
        }
        let trimmed = trim_chars(&combined);
        let mut out: Vec<char> = Vec::new();
        push_str_chars(&mut out, "{\"decision\":\"block\",\"reason\":\"");
        push_str_chars(&mut out, "[ralph-hook-lint] lint errors in ");
        let fv = str_to_chars(file_path);
        let fe = escape_chars(&fv);
        push_vec_chars(&mut out, &fe);
        push_str_chars(&mut out, " using ");
        let lv = str_to_chars(linter);
        let le = escape_chars(&lv);
        push_vec_chars(&mut out, &le);
        push_str_chars(&mut out, ":\\n\\n");
        let te = escape_chars(&trimmed);
        push_vec_chars(&mut out, &te);
        push_str_chars(&mut out, "\\n\\nFix lint errors.");
        push_str_chars(&mut out, "\"}");
        proof {
            assert(out@ =~= lint_block_spec(
                file_path@,
                linter@,
                trim_spec(combined_output_spec(stdout@, stderr@)),
            ));
        }
        chars_to_string(&out)
    }
}

} // verus!
