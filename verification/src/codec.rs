//! Base64 (standard alphabet, padded), which carries audio through the
//! engine protocol.

use vstd::prelude::*;
use base64::Engine;

verus! {

/// The character of the standard Base64 alphabet for `n` in `0..64`.
pub open spec fn base64_digit(n: int) -> char {
    if n < 26 {
        ('A' as int + n) as char
    } else if n < 52 {
        ('a' as int + (n - 26)) as char
    } else if n < 62 {
        ('0' as int + (n - 52)) as char
    } else if n == 62 {
        '+'
    } else {
        '/'
    }
}

/// The standard Base64 encoding of `b` with `=` padding (RFC 4648): every
/// three bytes become four characters, and a last group of one or two bytes
/// is padded to four.
pub open spec fn base64_encode(b: Seq<u8>) -> Seq<char>
    decreases b.len(),
{
    if b.len() == 0 {
        Seq::empty()
    } else {
        let x = b[0] as int;
        if b.len() == 1 {
            seq![base64_digit(x / 4), base64_digit((x % 4) * 16), '=', '=']
        } else {
            let y = b[1] as int;
            if b.len() == 2 {
                seq![
                    base64_digit(x / 4),
                    base64_digit((x % 4) * 16 + y / 16),
                    base64_digit((y % 16) * 4),
                    '=',
                ]
            } else {
                let z = b[2] as int;
                seq![
                    base64_digit(x / 4),
                    base64_digit((x % 4) * 16 + y / 16),
                    base64_digit((y % 16) * 4 + z / 64),
                    base64_digit(z % 64),
                ] + base64_encode(b.subrange(3, b.len() as int))
            }
        }
    }
}

/// `base64::engine::general_purpose::STANDARD.encode`: the padded standard
/// Base64 encoding of `bytes`. It panics when the length of the output
/// overflows `usize`, which the bound on the input rules out.
#[verifier::external_body]
fn standard_encode(bytes: &[u8]) -> (s: String)
    requires
        bytes@.len() / 3 * 4 + 4 <= usize::MAX,
    ensures
        s@ == base64_encode(bytes@),
{
    base64::engine::general_purpose::STANDARD.encode(bytes)
}

/// `base64::engine::general_purpose::STANDARD.decode`: this engine accepts
/// only canonical input (padding required, no trailing bits, nothing outside
/// the alphabet), so it decodes exactly the padded encodings of byte strings,
/// and gives back the bytes they encode. On any other input it fails; the
/// error is handed on as its `Display` text, whose wording is not stated.
#[verifier::external_body]
fn standard_decode(text: &str) -> (r: Result<Vec<u8>, String>)
    ensures
        r matches Ok(b) ==> base64_encode(b@) == text@,
        r is Err ==> forall|b: Seq<u8>| base64_encode(b) != text@,
{
    match base64::engine::general_purpose::STANDARD.decode(text) {
        Ok(b) => Ok(b),
        Err(e) => Err(e.to_string()),
    }
}

/// The Base64 text of `bytes`.
pub fn encode(bytes: &[u8]) -> (s: String)
    requires
        bytes@.len() / 3 * 4 + 4 <= usize::MAX,
    ensures
        s@ == base64_encode(bytes@),
{
    standard_encode(bytes)
}

/// The bytes that `text` encodes, or the decoder's error when `text` is not
/// the Base64 encoding of any bytes. Decoding an encoding gives back the
/// bytes encoded.
pub fn decode(text: &str) -> (r: Result<Vec<u8>, String>)
    ensures
        r matches Ok(b) ==> base64_encode(b@) == text@,
        r is Err <==> forall|b: Seq<u8>| base64_encode(b) != text@,
        forall|b: Seq<u8>| base64_encode(b) == text@ ==> (r matches Ok(d) && d@ == b),
{
    let r = standard_decode(text);
    proof {
        assert forall|b: Seq<u8>| base64_encode(b) == text@ implies (r matches Ok(d) && d@
            == b) by {
            match r {
                Ok(d) => lemma_encode_injective(d@, b),
                Err(_) => {},
            }
        }
    }
    r
}

proof fn lemma_digit(n: int, m: int)
    requires
        0 <= n < 64,
        0 <= m < 64,
    ensures
        base64_digit(n) != '=',
        base64_digit(n) == base64_digit(m) ==> n == m,
{
}

proof fn lemma_encode_shape(b: Seq<u8>)
    ensures
        b.len() == 0 <==> base64_encode(b).len() == 0,
        b.len() == 1 ==> base64_encode(b).len() == 4 && base64_encode(b)[2] == '=',
        b.len() >= 2 ==> base64_encode(b).len() >= 4 && base64_encode(b)[2] != '=',
        b.len() == 2 ==> base64_encode(b).len() == 4 && base64_encode(b)[3] == '=',
        b.len() >= 3 ==> base64_encode(b).len() >= 4 && base64_encode(b)[3] != '=',
        b.len() == 3 ==> base64_encode(b).len() == 4,
        b.len() > 3 ==> base64_encode(b).len() > 4,
    decreases b.len(),
{
    if b.len() >= 2 {
        let x = b[0] as int;
        let y = b[1] as int;
        lemma_digit((x % 4) * 16 + y / 16, 0);
        if b.len() == 2 {
            lemma_digit((y % 16) * 4, 0);
        }
    }
    if b.len() >= 3 {
        let y = b[1] as int;
        let z = b[2] as int;
        lemma_digit((y % 16) * 4 + z / 64, 0);
        lemma_digit(z % 64, 0);
        if b.len() > 3 {
            lemma_encode_shape(b.subrange(3, b.len() as int));
        }
    }
}

proof fn lemma_split(p: int, q: int, p2: int, q2: int, k: int)
    by (nonlinear_arith)
    requires
        k > 0,
        0 <= q < k,
        0 <= q2 < k,
        p * k + q == p2 * k + q2,
    ensures
        p == p2,
        q == q2,
{
}

proof fn lemma_byte(x: int)
    requires
        0 <= x < 256,
    ensures
        x == (x / 4) * 4 + x % 4,
        x == (x / 16) * 16 + x % 16,
        x == (x / 64) * 64 + x % 64,
        0 <= x / 16 < 16,
        0 <= x / 64 < 4,
{
}

/// Different bytes have different Base64 encodings.
pub proof fn lemma_encode_injective(a: Seq<u8>, b: Seq<u8>)
    requires
        base64_encode(a) == base64_encode(b),
    ensures
        a == b,
    decreases a.len(),
{
    lemma_encode_shape(a);
    lemma_encode_shape(b);
    let e = base64_encode(a);
    if a.len() == 0 {
        assert(b.len() == 0);
        assert(a =~= b);
    } else {
        let x = a[0] as int;
        let x2 = b[0] as int;
        lemma_digit(x / 4, x2 / 4);
        assert(e[0] == base64_digit(x / 4));
        assert(base64_encode(b)[0] == base64_digit(x2 / 4));
        if a.len() == 1 {
            assert(b.len() == 1);
            lemma_byte(x);
            lemma_byte(x2);
            assert(e[1] == base64_digit((x % 4) * 16));
            assert(base64_encode(b)[1] == base64_digit((x2 % 4) * 16));
            lemma_digit((x % 4) * 16, (x2 % 4) * 16);
            assert(x == x2);
            assert(a =~= b);
        } else {
            let y = a[1] as int;
            let y2 = b[1] as int;
            assert(b.len() >= 2);
            lemma_byte(x);
            lemma_byte(x2);
            lemma_byte(y);
            lemma_byte(y2);
            assert(e[1] == base64_digit((x % 4) * 16 + y / 16));
            assert(base64_encode(b)[1] == base64_digit((x2 % 4) * 16 + y2 / 16));
            lemma_digit((x % 4) * 16 + y / 16, (x2 % 4) * 16 + y2 / 16);
            lemma_split(x % 4, y / 16, x2 % 4, y2 / 16, 16);
            assert(x == x2);
            assert(y / 16 == y2 / 16);
            if a.len() == 2 {
                assert(b.len() == 2);
                assert(e[2] == base64_digit((y % 16) * 4));
                assert(base64_encode(b)[2] == base64_digit((y2 % 16) * 4));
                lemma_digit((y % 16) * 4, (y2 % 16) * 4);
                assert(y == y2);
                assert(a =~= b);
            } else {
                assert(b.len() >= 3);
                let z = a[2] as int;
                let z2 = b[2] as int;
                lemma_byte(z);
                lemma_byte(z2);
                assert(e[2] == base64_digit((y % 16) * 4 + z / 64));
                assert(base64_encode(b)[2] == base64_digit((y2 % 16) * 4 + z2 / 64));
                assert(e[3] == base64_digit(z % 64));
                assert(base64_encode(b)[3] == base64_digit(z2 % 64));
                lemma_digit((y % 16) * 4 + z / 64, (y2 % 16) * 4 + z2 / 64);
                lemma_digit(z % 64, z2 % 64);
                lemma_split(y % 16, z / 64, y2 % 16, z2 / 64, 4);
                assert(y == y2);
                assert(z == z2);
                let ra = a.subrange(3, a.len() as int);
                let rb = b.subrange(3, b.len() as int);
                let head = seq![
                    base64_digit(x / 4),
                    base64_digit((x % 4) * 16 + y / 16),
                    base64_digit((y % 16) * 4 + z / 64),
                    base64_digit(z % 64),
                ];
                assert(e == head + base64_encode(ra));
                assert(base64_encode(b) == head + base64_encode(rb));
                assert(base64_encode(ra) =~= e.subrange(4, e.len() as int));
                assert(base64_encode(rb) =~= e.subrange(4, e.len() as int));
                lemma_encode_injective(ra, rb);
                assert(a.len() == b.len());
                assert forall|k: int| 0 <= k < a.len() implies a[k] == b[k] by {
                    if k >= 3 {
                        assert(a[k] == ra[k - 3]);
                        assert(b[k] == rb[k - 3]);
                    } else if k == 1 {
                        assert(a[1] as int == y);
                    } else if k == 2 {
                        assert(a[2] as int == z);
                    }
                }
                assert(a =~= b);
            }
        }
    }
}

} // verus!
