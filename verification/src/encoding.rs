//! Base64 and `data:` URLs, through the `base64` crate.

use vstd::prelude::*;
use crate::text::{chars_of, push_str, string_from_chars};

verus! {

/// The character of a 6-bit value in the standard base64 alphabet.
pub open spec fn base64_char(n: int) -> char {
    if n < 26 {
        ('A' as int + n) as char
    } else if n < 52 {
        ('a' as int + (n - 26)) as char
    } else if n < 62 {
        ('0' as int + (n - 52)) as char
    } else if n == 62 {
        '+'
    } else {
        '/'
    }
}

/// The standard (RFC 4648, padded) base64 text of some bytes: every three
/// bytes become four characters; a last group of one or two bytes is padded
/// with `=`.
pub open spec fn base64_text(bytes: Seq<u8>) -> Seq<char>
    decreases bytes.len(),
{
    if bytes.len() == 0 {
        Seq::empty()
    } else if bytes.len() == 1 {
        let b0 = bytes[0] as int;
        seq![base64_char(b0 / 4), base64_char((b0 % 4) * 16), '=', '=']
    } else if bytes.len() == 2 {
        let b0 = bytes[0] as int;
        let b1 = bytes[1] as int;
        seq![base64_char(b0 / 4), base64_char((b0 % 4) * 16 + b1 / 16), base64_char((b1 % 16) * 4), '=']
    } else {
        let b0 = bytes[0] as int;
        let b1 = bytes[1] as int;
        let b2 = bytes[2] as int;
        seq![
            base64_char(b0 / 4),
            base64_char((b0 % 4) * 16 + b1 / 16),
            base64_char((b1 % 16) * 4 + b2 / 64),
            base64_char(b2 % 64),
        ] + base64_text(bytes.skip(3))
    }
}

/// Whether `text` is the base64 text of some bytes.
pub open spec fn is_base64(text: Seq<char>) -> bool {
    exists|b: Seq<u8>| #[trigger] base64_text(b) == text
}

/// The error text the `base64` crate reports for a text it cannot decode.
pub uninterp spec fn base64_error(text: Seq<char>) -> Seq<char>;

/// `base64::engine::general_purpose::STANDARD.encode(bytes)`: the padded
/// standard base64 text.
#[verifier::external_body]
pub(crate) fn base64_encode(bytes: &[u8]) -> (s: String)
    ensures
        s@ == base64_text(bytes@),
{
    base64::Engine::encode(&base64::engine::general_purpose::STANDARD, bytes)
}

/// `base64::engine::general_purpose::STANDARD.decode(text)`. That engine
/// requires canonical padding and zero trailing bits, so it accepts exactly
/// the texts that [`base64_text`] produces and gives back their bytes;
/// otherwise the crate's error text.
#[verifier::external_body]
pub(crate) fn base64_decode(text: &str) -> (r: Result<Vec<u8>, String>)
    ensures
        r matches Ok(b) ==> base64_text(b@) == text@,
        r matches Err(e) ==> !is_base64(text@) && e@ == base64_error(text@),
{
    match base64::Engine::decode(&base64::engine::general_purpose::STANDARD, text) {
        Ok(b) => Ok(b),
        Err(e) => Err(e.to_string()),
    }
}

/// `data:<mime>;base64,<payload>`.
pub open spec fn data_uri_text(mime: Seq<char>, bytes: Seq<u8>) -> Seq<char> {
    "data:"@ + mime + ";base64,"@ + base64_text(bytes)
}

/// Embeds bytes as a `data:` URI with the given MIME type.
pub fn data_uri(mime: &str, bytes: &[u8]) -> (s: String)
    ensures
        s@ == data_uri_text(mime@, bytes@),
{
    let mut v = chars_of("data:");
    push_str(&mut v, mime);
    push_str(&mut v, ";base64,");
    let b = base64_encode(bytes);
    push_str(&mut v, b.as_str());
    string_from_chars(&v)
}

} // verus!

verus! {

proof fn lemma_base64_char_range(n: int)
    requires
        0 <= n < 64,
    ensures
        base64_char(n) != '=',
        base64_char(n) != ',',
{
}

proof fn lemma_base64_char_injective(x: int, y: int)
    requires
        0 <= x < 64,
        0 <= y < 64,
        base64_char(x) == base64_char(y),
    ensures
        x == y,
{
}

/// Base64 text never holds a comma.
pub proof fn lemma_base64_no_comma(bytes: Seq<u8>)
    ensures
        forall|i: int| 0 <= i < base64_text(bytes).len() ==> base64_text(bytes)[i] != ',',
    decreases bytes.len(),
{
    let t = base64_text(bytes);
    if bytes.len() >= 1 {
        let b0 = bytes[0] as int;
        lemma_base64_char_range(b0 / 4);
        if bytes.len() == 1 {
            lemma_base64_char_range((b0 % 4) * 16);
        } else {
            let b1 = bytes[1] as int;
            lemma_base64_char_range((b0 % 4) * 16 + b1 / 16);
            if bytes.len() == 2 {
                lemma_base64_char_range((b1 % 16) * 4);
            } else {
                let b2 = bytes[2] as int;
                lemma_base64_char_range((b1 % 16) * 4 + b2 / 64);
                lemma_base64_char_range(b2 % 64);
                lemma_base64_no_comma(bytes.skip(3));
                assert forall|i: int| 4 <= i < t.len() implies t[i] != ',' by {
                    assert(t[i] == base64_text(bytes.skip(3))[i - 4]);
                }
            }
        }
    }
}

proof fn lemma_group_bytes(b0: int, b1: int, c0: int, c1: int)
    requires
        0 <= b0 < 256,
        0 <= b1 < 256,
        0 <= c0 < 256,
        0 <= c1 < 256,
        b0 / 4 == c0 / 4,
        (b0 % 4) * 16 + b1 / 16 == (c0 % 4) * 16 + c1 / 16,
    ensures
        b0 == c0,
        b1 / 16 == c1 / 16,
{
    assert(b0 == c0 && b1 / 16 == c1 / 16) by (nonlinear_arith)
        requires
            0 <= b0 < 256,
            0 <= b1 < 256,
            0 <= c0 < 256,
            0 <= c1 < 256,
            b0 / 4 == c0 / 4,
            (b0 % 4) * 16 + b1 / 16 == (c0 % 4) * 16 + c1 / 16,
    ;
}

proof fn lemma_group_tail(b1: int, b2: int, c1: int, c2: int)
    requires
        0 <= b1 < 256,
        0 <= b2 < 256,
        0 <= c1 < 256,
        0 <= c2 < 256,
        b1 / 16 == c1 / 16,
        (b1 % 16) * 4 + b2 / 64 == (c1 % 16) * 4 + c2 / 64,
        b2 % 64 == c2 % 64,
    ensures
        b1 == c1,
        b2 == c2,
{
    assert(b1 == c1 && b2 == c2) by (nonlinear_arith)
        requires
            0 <= b1 < 256,
            0 <= b2 < 256,
            0 <= c1 < 256,
            0 <= c2 < 256,
            b1 / 16 == c1 / 16,
            (b1 % 16) * 4 + b2 / 64 == (c1 % 16) * 4 + c2 / 64,
            b2 % 64 == c2 % 64,
    ;
}

/// Different bytes have different base64 texts.
pub proof fn lemma_base64_injective(a: Seq<u8>, b: Seq<u8>)
    requires
        base64_text(a) == base64_text(b),
    ensures
        a == b,
    decreases a.len(),
{
    let ta = base64_text(a);
    let tb = base64_text(b);
    if a.len() == 0 || b.len() == 0 {
        if a.len() != 0 || b.len() != 0 {
            assert(ta.len() != tb.len());
        }
        assert(a =~= b);
        return;
    }
    let a0 = a[0] as int;
    let b0 = b[0] as int;
    assert(ta[0] == base64_char(a0 / 4));
    assert(tb[0] == base64_char(b0 / 4));
    lemma_base64_char_injective(a0 / 4, b0 / 4);
    if a.len() == 1 && b.len() == 1 {
        assert(ta[1] == tb[1]);
        lemma_base64_char_injective((a0 % 4) * 16, (b0 % 4) * 16);
        assert(a0 == b0) by (nonlinear_arith)
            requires
                0 <= a0 < 256,
                0 <= b0 < 256,
                a0 / 4 == b0 / 4,
                (a0 % 4) * 16 == (b0 % 4) * 16,
        ;
        assert(a =~= b);
        return;
    }
    if a.len() == 1 || b.len() == 1 {
        // a one-byte tail has `=` where a longer input has a digit
        if a.len() == 1 {
            let b1 = b[1] as int;
            if b.len() == 2 {
                lemma_base64_char_range((b1 % 16) * 4);
            } else {
                let b2 = b[2] as int;
                lemma_base64_char_range((b1 % 16) * 4 + b2 / 64);
            }
            assert(ta[2] == tb[2]);
        } else {
            let a1 = a[1] as int;
            if a.len() == 2 {
                lemma_base64_char_range((a1 % 16) * 4);
            } else {
                let a2 = a[2] as int;
                lemma_base64_char_range((a1 % 16) * 4 + a2 / 64);
            }
            assert(ta[2] == tb[2]);
        }
        return;
    }
    let a1 = a[1] as int;
    let b1 = b[1] as int;
    assert(ta[1] == base64_char((a0 % 4) * 16 + a1 / 16));
    assert(tb[1] == base64_char((b0 % 4) * 16 + b1 / 16));
    lemma_base64_char_injective((a0 % 4) * 16 + a1 / 16, (b0 % 4) * 16 + b1 / 16);
    lemma_group_bytes(a0, a1, b0, b1);
    if a.len() == 2 && b.len() == 2 {
        assert(ta[2] == tb[2]);
        lemma_base64_char_injective((a1 % 16) * 4, (b1 % 16) * 4);
        assert(a1 == b1) by (nonlinear_arith)
            requires
                0 <= a1 < 256,
                0 <= b1 < 256,
                a1 / 16 == b1 / 16,
                (a1 % 16) * 4 == (b1 % 16) * 4,
        ;
        assert(a =~= b);
        return;
    }
    if a.len() == 2 || b.len() == 2 {
        // a two-byte tail has `=` where a longer input has a digit
        if a.len() == 2 {
            lemma_base64_char_range(b[2] as int % 64);
        } else {
            lemma_base64_char_range(a[2] as int % 64);
        }
        assert(ta[3] == tb[3]);
        return;
    }
    let a2 = a[2] as int;
    let b2 = b[2] as int;
    assert(ta[2] == tb[2]);
    assert(ta[3] == tb[3]);
    lemma_base64_char_injective((a1 % 16) * 4 + a2 / 64, (b1 % 16) * 4 + b2 / 64);
    lemma_base64_char_injective(a2 % 64, b2 % 64);
    lemma_group_tail(a1, a2, b1, b2);
    assert(ta.skip(4) =~= base64_text(a.skip(3)));
    assert(tb.skip(4) =~= base64_text(b.skip(3)));
    lemma_base64_injective(a.skip(3), b.skip(3));
    assert(a =~= seq![a[0], a[1], a[2]] + a.skip(3));
    assert(b =~= seq![b[0], b[1], b[2]] + b.skip(3));
}

} // verus!
