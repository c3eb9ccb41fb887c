//! JSON string literals, as the engine protocol writes them.

use vstd::prelude::*;

verus! {

#[verifier::external_type_specification]
#[verifier::external_body]
pub struct ExJsonError(serde_json::Error);

/// The lower-case hexadecimal digit for `n` in `0..16`.
pub open spec fn hex_digit(n: int) -> char {
    seq!['0', '1', '2', '3', '4', '5', '6', '7', '8', '9', 'a', 'b', 'c', 'd', 'e', 'f'][n]
}

/// How one character is written inside a JSON string: quote, backslash and
/// the control characters are escaped, everything else stands as it is.
pub open spec fn json_escape(c: char) -> Seq<char> {
    if c == '"' {
        seq!['\\', '"']
    } else if c == '\\' {
        seq!['\\', '\\']
    } else if c == '\u{8}' {
        seq!['\\', 'b']
    } else if c == '\t' {
        seq!['\\', 't']
    } else if c == '\n' {
        seq!['\\', 'n']
    } else if c == '\u{c}' {
        seq!['\\', 'f']
    } else if c == '\r' {
        seq!['\\', 'r']
    } else if (c as int) < 0x20 {
        seq!['\\', 'u', '0', '0', hex_digit((c as int) / 16), hex_digit((c as int) % 16)]
    } else {
        seq![c]
    }
}

/// The escaped characters of `s`, without the surrounding quotes.
pub open spec fn json_body(s: Seq<char>) -> Seq<char>
    decreases s.len(),
{
    if s.len() == 0 {
        Seq::empty()
    } else {
        json_body(s.drop_last()) + json_escape(s.last())
    }
}

/// `s` as a JSON string literal, quotes included.
pub open spec fn json_quoted(s: Seq<char>) -> Seq<char> {
    seq!['"'] + json_body(s) + seq!['"']
}

/// `serde_json::to_string` on a string slice: it writes the string as a JSON
/// string literal, escaping `"`, `\` and the control characters below U+0020
/// (the short forms `\b \t \n \f \r` where JSON has them, `\u00xx` with
/// lower-case hex digits otherwise) and copying every other character. Its
/// writer is an in-memory buffer, so it does not fail.
#[verifier::external_body]
fn serde_json_string(s: &str) -> (r: Result<String, serde_json::Error>)
    ensures
        r is Ok,
        r matches Ok(j) ==> j@ == json_quoted(s@),
{
    serde_json::to_string(s)
}

/// `s` written as a JSON string literal.
pub fn quote(s: &str) -> (r: String)
    ensures
        r@ == json_quoted(s@),
{
    match serde_json_string(s) {
        Ok(j) => j,
        Err(_) => {
            proof {
                assert(false);
            }
            String::new()
        },
    }
}

proof fn lemma_escape_no_newline(c: char)
    ensures
        !json_escape(c).contains('\n'),
{
    let e = json_escape(c);
    if (c as int) < 0x20 && c != '\u{8}' && c != '\t' && c != '\n' && c != '\u{c}' && c
        != '\r' {
        let h = seq!['0', '1', '2', '3', '4', '5', '6', '7', '8', '9', 'a', 'b', 'c', 'd', 'e', 'f'];
        assert(forall|k: int| 0 <= k < 16 ==> h[k] != '\n');
        assert(0 <= (c as int) / 16 < 16);
        assert(0 <= (c as int) % 16 < 16);
    }
    assert forall|k: int| 0 <= k < e.len() implies e[k] != '\n' by {}
}

/// No escaped body holds a raw line feed.
pub proof fn lemma_body_no_newline(s: Seq<char>)
    ensures
        !json_body(s).contains('\n'),
    decreases s.len(),
{
    if s.len() > 0 {
        lemma_body_no_newline(s.drop_last());
        lemma_escape_no_newline(s.last());
        let a = json_body(s.drop_last());
        let b = json_escape(s.last());
        assert forall|k: int| 0 <= k < (a + b).len() implies (a + b)[k] != '\n' by {
            if k < a.len() {
                assert((a + b)[k] == a[k]);
            } else {
                assert((a + b)[k] == b[k - a.len()]);
            }
        }
    }
}

/// A JSON string literal never holds a raw line feed, so a request framed from
/// such literals stays on one line of the engine protocol.
pub proof fn lemma_quoted_single_line(s: Seq<char>)
    ensures
        !json_quoted(s).contains('\n'),
{
    lemma_body_no_newline(s);
    let q = json_quoted(s);
    let b = json_body(s);
    assert forall|k: int| 0 <= k < q.len() implies q[k] != '\n' by {
        if k == 0 {
        } else if k <= b.len() {
            assert(q[k] == b[k - 1]);
        } else {
        }
    }
}

/// Text without a raw line feed: it fits on one line of the engine
/// protocol.
pub open spec fn single_line(s: Seq<char>) -> bool {
    !s.contains('\n')
}

/// Joining texts that each fit on one line gives one that does.
pub proof fn lemma_join_single_line(a: Seq<char>, b: Seq<char>)
    requires
        single_line(a),
        single_line(b),
    ensures
        single_line(a + b),
{
    assert forall|k: int| 0 <= k < (a + b).len() implies (a + b)[k] != '\n' by {
        if k < a.len() {
            assert((a + b)[k] == a[k]);
            assert(a[k] != '\n');
        } else {
            assert((a + b)[k] == b[k - a.len()]);
            assert(b[k - a.len()] != '\n');
        }
    }
}

} // verus!
