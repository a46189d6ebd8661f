//! Text encodings the service produces and reads: lowercase hexadecimal,
//! unpadded URL-safe Base64, and JSON string literals.
use base64::Engine;
use vstd::prelude::*;

verus! {

// ---------------------------------------------------------------------------
// Hexadecimal.
// ---------------------------------------------------------------------------

/// The lowercase hexadecimal digit of `n` (below 16).
pub open spec fn hex_digit(n: int) -> char {
    if n < 10 {
        (('0' as int) + n) as char
    } else {
        (('a' as int) + n - 10) as char
    }
}

/// Two lowercase hexadecimal digits per byte, most significant first.
pub open spec fn hex_text(b: Seq<u8>) -> Seq<char>
    decreases b.len(),
{
    if b.len() == 0 {
        seq![]
    } else {
        hex_text(b.drop_last()) + seq![hex_digit((b.last() as int) / 16), hex_digit((b.last() as int) % 16)]
    }
}

/// The value of a lowercase hexadecimal digit; 16 for any other character.
pub open spec fn hex_value(c: char) -> int {
    if '0' <= c <= '9' {
        (c as int) - ('0' as int)
    } else if 'a' <= c <= 'f' {
        (c as int) - ('a' as int) + 10
    } else {
        16
    }
}

/// Hexadecimal text spells each byte, in order, as two lowercase digits,
/// the high one first, so the bytes can be read back from it.
pub proof fn lemma_hex_text_spells_bytes(b: Seq<u8>)
    ensures
        hex_text(b).len() == 2 * b.len(),
        forall|i: int| 0 <= i < b.len() ==> 16 * hex_value(#[trigger] hex_text(b)[2 * i]) + hex_value(
            hex_text(b)[2 * i + 1],
        ) == b[i] as int,
        forall|k: int| 0 <= k < hex_text(b).len() ==> hex_value(#[trigger] hex_text(b)[k]) < 16,
    decreases b.len(),
{
    if b.len() > 0 {
        let init = b.drop_last();
        lemma_hex_text_spells_bytes(init);
        let t = hex_text(b);
        let ti = hex_text(init);
        let x = b.last() as int;
        let hi = hex_digit(x / 16);
        let lo = hex_digit(x % 16);
        assert(t == ti + seq![hi, lo]);
        assert(hex_value(hi) == x / 16);
        assert(hex_value(lo) == x % 16);
        assert forall|i: int| 0 <= i < b.len() implies 16 * hex_value(#[trigger] t[2 * i]) + hex_value(
            t[2 * i + 1],
        ) == b[i] as int by {
            if i < init.len() {
                assert(t[2 * i] == ti[2 * i]);
                assert(t[2 * i + 1] == ti[2 * i + 1]);
                assert(b[i] == init[i]);
            } else {
                assert(t[2 * i] == hi);
                assert(t[2 * i + 1] == lo);
            }
        }
        assert forall|k: int| 0 <= k < t.len() implies hex_value(#[trigger] t[k]) < 16 by {
            if k < ti.len() {
                assert(t[k] == ti[k]);
            }
        }
    }
}

/// `hex::encode`: the contract claims that the result is the lowercase
/// hexadecimal text of the bytes, two digits per byte.
#[verifier::external_body]
pub(crate) fn hex_encode(bytes: &[u8]) -> (r: String)
    ensures
        r@ == hex_text(bytes@),
{
    hex::encode(bytes)
}

// ---------------------------------------------------------------------------
// URL-safe Base64 without padding.
// ---------------------------------------------------------------------------

/// The URL-safe Base64 alphabet: `A`-`Z`, `a`-`z`, `0`-`9`, `-`, `_`.
pub open spec fn base64_symbol(n: int) -> char {
    if n < 26 {
        (('A' as int) + n) as char
    } else if n < 52 {
        (('a' as int) + n - 26) as char
    } else if n < 62 {
        (('0' as int) + n - 52) as char
    } else if n == 62 {
        '-'
    } else {
        '_'
    }
}

/// URL-safe Base64 without padding: each group of three bytes gives four
/// symbols of six bits; a final group of one or two bytes gives two or three
/// symbols, the unused low bits being zero.
pub open spec fn base64url(b: Seq<u8>) -> Seq<char>
    decreases b.len(),
{
    if b.len() == 0 {
        seq![]
    } else if b.len() == 1 {
        seq![base64_symbol((b[0] as int) / 4), base64_symbol(((b[0] as int) % 4) * 16)]
    } else if b.len() == 2 {
        seq![
            base64_symbol((b[0] as int) / 4),
            base64_symbol(((b[0] as int) % 4) * 16 + (b[1] as int) / 16),
            base64_symbol(((b[1] as int) % 16) * 4),
        ]
    } else {
        seq![
            base64_symbol((b[0] as int) / 4),
            base64_symbol(((b[0] as int) % 4) * 16 + (b[1] as int) / 16),
            base64_symbol(((b[1] as int) % 16) * 4 + (b[2] as int) / 64),
            base64_symbol((b[2] as int) % 64),
        ] + base64url(b.skip(3))
    }
}

/// Encodes with `base64`'s `URL_SAFE_NO_PAD` engine; the contract claims the
/// result is the unpadded URL-safe Base64 text of the bytes.
#[verifier::external_body]
pub(crate) fn base64url_encode(bytes: &[u8]) -> (r: String)
    ensures
        r@ == base64url(bytes@),
{
    base64::engine::general_purpose::URL_SAFE_NO_PAD.encode(bytes)
}

/// Decodes with `base64`'s `URL_SAFE_NO_PAD` engine. That engine refuses
/// padding, symbols outside the alphabet, a length of one more than a
/// multiple of four, and non-zero unused bits, so it accepts exactly the
/// texts that encoding some bytes produces: the contract claims the result
/// is bytes whose encoding is the text, and `None` when there are none.
#[verifier::external_body]
pub(crate) fn base64url_decode(text: &str) -> (r: Option<Vec<u8>>)
    ensures
        match r {
            Some(b) => base64url(b@) == text@,
            None => forall|b: Seq<u8>| #[trigger] base64url(b) != text@,
        },
{
    match base64::engine::general_purpose::URL_SAFE_NO_PAD.decode(text) {
        Ok(bytes) => Some(bytes),
        Err(_) => None,
    }
}

/// Different bytes never encode alike.
pub proof fn lemma_base64url_injective(a: Seq<u8>, b: Seq<u8>)
    requires
        base64url(a) == base64url(b),
    ensures
        a == b,
    decreases a.len(),
{
    lemma_base64url_len(a);
    lemma_base64url_len(b);
    let e = base64url(a);
    if a.len() == 0 {
        assert(b.len() == 0);
        assert(a =~= b);
    } else if a.len() == 1 {
        assert(b.len() == 1);
        let (a0, b0) = (a[0] as int, b[0] as int);
        assert(e[0] == base64_symbol(a0 / 4) && e[0] == base64_symbol(b0 / 4));
        assert(e[1] == base64_symbol((a0 % 4) * 16) && e[1] == base64_symbol((b0 % 4) * 16));
        lemma_symbol_index(a0 / 4);
        lemma_symbol_index(b0 / 4);
        lemma_symbol_index((a0 % 4) * 16);
        lemma_symbol_index((b0 % 4) * 16);
        assert(a0 == b0);
        assert(a =~= b);
    } else if a.len() == 2 {
        assert(b.len() == 2);
        let (a0, b0, a1, b1) = (a[0] as int, b[0] as int, a[1] as int, b[1] as int);
        assert(e[0] == base64_symbol(a0 / 4) && e[0] == base64_symbol(b0 / 4));
        assert(e[1] == base64_symbol((a0 % 4) * 16 + a1 / 16) && e[1] == base64_symbol(
            (b0 % 4) * 16 + b1 / 16,
        ));
        assert(e[2] == base64_symbol((a1 % 16) * 4) && e[2] == base64_symbol((b1 % 16) * 4));
        lemma_symbol_index(a0 / 4);
        lemma_symbol_index(b0 / 4);
        lemma_symbol_index((a0 % 4) * 16 + a1 / 16);
        lemma_symbol_index((b0 % 4) * 16 + b1 / 16);
        lemma_symbol_index((a1 % 16) * 4);
        lemma_symbol_index((b1 % 16) * 4);
        assert(a0 == b0 && a1 == b1);
        assert(a =~= b);
    } else {
        assert(b.len() >= 3);
        let (a0, b0, a1, b1, a2, b2) = (
            a[0] as int,
            b[0] as int,
            a[1] as int,
            b[1] as int,
            a[2] as int,
            b[2] as int,
        );
        assert(e[0] == base64_symbol(a0 / 4) && e[0] == base64_symbol(b0 / 4));
        assert(e[1] == base64_symbol((a0 % 4) * 16 + a1 / 16) && e[1] == base64_symbol(
            (b0 % 4) * 16 + b1 / 16,
        ));
        assert(e[2] == base64_symbol((a1 % 16) * 4 + a2 / 64) && e[2] == base64_symbol(
            (b1 % 16) * 4 + b2 / 64,
        ));
        assert(e[3] == base64_symbol(a2 % 64) && e[3] == base64_symbol(b2 % 64));
        lemma_symbol_index(a0 / 4);
        lemma_symbol_index(b0 / 4);
        lemma_symbol_index((a0 % 4) * 16 + a1 / 16);
        lemma_symbol_index((b0 % 4) * 16 + b1 / 16);
        lemma_symbol_index((a1 % 16) * 4 + a2 / 64);
        lemma_symbol_index((b1 % 16) * 4 + b2 / 64);
        lemma_symbol_index(a2 % 64);
        lemma_symbol_index(b2 % 64);
        assert(a0 == b0 && a1 == b1 && a2 == b2);
        assert(e.skip(4) == base64url(a.skip(3)));
        assert(e.skip(4) == base64url(b.skip(3)));
        lemma_base64url_injective(a.skip(3), b.skip(3));
        assert(a =~= seq![a[0], a[1], a[2]] + a.skip(3));
        assert(b =~= seq![b[0], b[1], b[2]] + b.skip(3));
    }
}

/// The value of a Base64 symbol.
spec fn base64_symbol_index(c: char) -> int {
    if 'A' <= c <= 'Z' {
        c as int - 'A' as int
    } else if 'a' <= c <= 'z' {
        c as int - 'a' as int + 26
    } else if '0' <= c <= '9' {
        c as int - '0' as int + 52
    } else if c == '-' {
        62
    } else {
        63
    }
}

proof fn lemma_symbol_index(n: int)
    requires
        0 <= n < 64,
    ensures
        base64_symbol_index(base64_symbol(n)) == n,
{
}

/// The length of an encoding: four symbols per three bytes, and two or three
/// symbols for a final group of one or two bytes.
proof fn lemma_base64url_len(b: Seq<u8>)
    ensures
        base64url(b).len() == (b.len() / 3) * 4 + (if b.len() % 3 == 0 {
            0
        } else {
            b.len() % 3 + 1
        }),
        b.len() == 0 <==> base64url(b).len() == 0,
        b.len() == 1 <==> base64url(b).len() == 2,
        b.len() == 2 <==> base64url(b).len() == 3,
    decreases b.len(),
{
    if b.len() >= 3 {
        lemma_base64url_len(b.skip(3));
    }
}

// ---------------------------------------------------------------------------
// JSON strings.
// ---------------------------------------------------------------------------

/// How `serde_json` writes one character inside a string literal: `"` and
/// `\` and the control characters below U+0020 escaped (`\b`, `\t`, `\n`,
/// `\f`, `\r`, or `\u00XX` with lowercase hexadecimal), all else as is.
pub open spec fn json_char(c: char) -> Seq<char> {
    if c == '"' {
        seq!['\\', '"']
    } else if c == '\\' {
        seq!['\\', '\\']
    } else if (c as u32) == 0x08 {
        seq!['\\', 'b']
    } else if c == '\t' {
        seq!['\\', 't']
    } else if c == '\n' {
        seq!['\\', 'n']
    } else if (c as u32) == 0x0C {
        seq!['\\', 'f']
    } else if c == '\r' {
        seq!['\\', 'r']
    } else if (c as u32) < 0x20 {
        seq!['\\', 'u', '0', '0', hex_digit((c as int) / 16), hex_digit((c as int) % 16)]
    } else {
        seq![c]
    }
}

/// The escaped characters of `s`.
pub open spec fn json_escaped(s: Seq<char>) -> Seq<char>
    decreases s.len(),
{
    if s.len() == 0 {
        seq![]
    } else {
        json_escaped(s.drop_last()) + json_char(s.last())
    }
}

/// The JSON string literal of `s`: its escaped characters between quotes.
pub open spec fn json_string(s: Seq<char>) -> Seq<char> {
    seq!['"'] + json_escaped(s) + seq!['"']
}

/// `serde_json::to_string` of a string: the contract claims the result is
/// its JSON string literal. Serializing a string cannot fail.
#[verifier::external_body]
pub(crate) fn json_string_literal(s: &str) -> (r: String)
    ensures
        r@ == json_string(s@),
{
    match serde_json::to_string(s) {
        Ok(text) => text,
        Err(_) => String::new(),
    }
}

} // verus!
