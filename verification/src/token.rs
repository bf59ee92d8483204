//! The `Proxy-Authorization` value that carries a Kerberos AP-REQ token.

use vstd::prelude::*;
use base64::Engine;

verus! {

/// The character of the standard base64 alphabet (RFC 4648) for the six-bit value `v`.
pub open spec fn base64_digit(v: int) -> char {
    if v < 26 {
        (0x41 + v) as char
    } else if v < 52 {
        (0x61 + v - 26) as char
    } else if v < 62 {
        (0x30 + v - 52) as char
    } else if v == 62 {
        '+'
    } else {
        '/'
    }
}

/// `bytes` in base64 with the standard alphabet and `=` padding (RFC 4648): each
/// group of three bytes, the last one possibly shorter, becomes four characters.
pub open spec fn base64_encode(bytes: Seq<u8>) -> Seq<char>
    decreases bytes.len(),
{
    if bytes.len() == 0 {
        Seq::empty()
    } else if bytes.len() == 1 {
        seq![base64_digit((bytes[0] / 4) as int), base64_digit((bytes[0] % 4) * 16), '=', '=']
    } else if bytes.len() == 2 {
        seq![
            base64_digit((bytes[0] / 4) as int),
            base64_digit((bytes[0] % 4) * 16 + bytes[1] / 16),
            base64_digit((bytes[1] % 16) * 4),
            '=',
        ]
    } else {
        seq![
            base64_digit((bytes[0] / 4) as int),
            base64_digit((bytes[0] % 4) * 16 + bytes[1] / 16),
            base64_digit((bytes[1] % 16) * 4 + bytes[2] / 64),
            base64_digit((bytes[2] % 64) as int),
        ] + base64_encode(bytes.skip(3))
    }
}

/// A character of the standard base64 alphabet, or the padding `=`.
pub open spec fn is_base64_char(c: char) -> bool {
    let v = c as u32;
    ||| 0x41 <= v <= 0x5a
    ||| 0x61 <= v <= 0x7a
    ||| 0x30 <= v <= 0x39
    ||| v == 0x2b
    ||| v == 0x2f
    ||| v == 0x3d
}

/// The length of the padded base64 text for `n` bytes: four characters for each
/// started group of three bytes.
pub open spec fn base64_len(n: nat) -> nat {
    (n / 3) * 4 + if n % 3 == 0 {
        0nat
    } else {
        4nat
    }
}

/// Printable ASCII, from the space to `~`.
pub open spec fn is_visible_ascii(s: Seq<char>) -> bool {
    forall|i: int| 0 <= i < s.len() ==> 0x20 <= #[trigger] (s[i] as u32) <= 0x7e
}

/// Text that an HTTP header value can hold: no control character but the tab.
pub open spec fn is_header_text(s: Seq<char>) -> bool {
    forall|i: int|
        0 <= i < s.len() ==> (#[trigger] (s[i] as u32) == 0x09 || (0x20 <= (s[i] as u32) && (s[i]
            as u32) != 0x7f))
}

/// Whether a token of `n` bytes is short enough for its base64 length to be computed.
pub open spec fn token_fits(n: nat) -> bool {
    n / 3 * 4 + 4 <= usize::MAX
}

/// The value of `Proxy-Authorization` for the token `token`.
pub open spec fn negotiate_value(token: Seq<u8>) -> Seq<char> {
    "Negotiate "@ + base64_encode(token)
}

/// `Negotiate `, then base64 characters only.
pub open spec fn is_ticket_text(a: Seq<char>) -> bool {
    &&& a.len() >= 10
    &&& a.subrange(0, 10) == "Negotiate "@
    &&& forall|i: int| 10 <= i < a.len() ==> #[trigger] is_base64_char(a[i])
}

/// Base64 text has four characters per started group of three bytes, all of the
/// alphabet or `=`.
pub proof fn lemma_base64_encode(bytes: Seq<u8>)
    ensures
        base64_encode(bytes).len() == base64_len(bytes.len()),
        forall|i: int|
            0 <= i < base64_encode(bytes).len() ==> #[trigger] is_base64_char(base64_encode(bytes)[i]),
    decreases bytes.len(),
{
    let e = base64_encode(bytes);
    if bytes.len() >= 3 {
        let rest = bytes.skip(3);
        lemma_base64_encode(rest);
        let r = base64_encode(rest);
        assert forall|i: int| 0 <= i < e.len() implies #[trigger] is_base64_char(e[i]) by {
            if i >= 4 {
                assert(e[i] == r[i - 4]);
            }
        }
    }
}

/// A ticket value is `Negotiate ` and base64 text, all printable ASCII and so fit
/// for a header.
pub proof fn lemma_negotiate_value(token: Seq<u8>)
    ensures
        is_ticket_text(negotiate_value(token)),
        is_visible_ascii(negotiate_value(token)),
        is_header_text(negotiate_value(token)),
        negotiate_value(token).len() == 10 + base64_len(token.len()),
{
    reveal_strlit("Negotiate ");
    lemma_base64_encode(token);
    let a = negotiate_value(token);
    let e = base64_encode(token);
    assert(a.subrange(0, 10) =~= "Negotiate "@);
    assert forall|i: int| 10 <= i < a.len() implies #[trigger] is_base64_char(a[i]) by {
        assert(a[i] == e[i - 10]);
    }
    assert forall|i: int| 0 <= i < a.len() implies 0x20 <= #[trigger] (a[i] as u32) <= 0x7e by {
        if i >= 10 {
            assert(is_base64_char(a[i]));
        }
    }
}

/// Calls `base64::engine::general_purpose::STANDARD.encode`. Claimed of it: it
/// writes `bytes` in RFC 4648 base64 with the standard alphabet and `=` padding.
/// The engine panics when the encoded length overflows `usize`, which `requires`
/// leaves out.
#[verifier::external_body]
fn encode_base64(bytes: &[u8]) -> (r: String)
    requires
        token_fits(bytes@.len()),
    ensures
        r@ == base64_encode(bytes@),
{
    base64::engine::general_purpose::STANDARD.encode(bytes)
}

/// `Negotiate ` followed by `encoded`.
pub fn negotiate_with(encoded: &str) -> (r: String)
    ensures
        r@ == "Negotiate "@ + encoded@,
{
    String::from_str("Negotiate ").concat(encoded)
}

/// `Negotiate ` followed by the token in base64: the value that authenticates to
/// the parent proxy. After `Negotiate ` it holds base64 characters only, so all
/// of it is printable ASCII.
pub fn negotiate_header(token: &[u8]) -> (r: String)
    requires
        token_fits(token@.len()),
    ensures
        r@ == negotiate_value(token@),
        r@.len() == 10 + base64_len(token@.len()),
        is_ticket_text(r@),
        is_visible_ascii(r@),
{
    let encoded = encode_base64(token);
    proof {
        lemma_negotiate_value(token@);
    }
    negotiate_with(encoded.as_str())
}

/// Whether `s` can be an HTTP header value as it is.
pub fn is_header_value_text(s: &str) -> (r: bool)
    ensures
        r == is_header_text(s@),
{
    let len = s.unicode_len();
    let mut i: usize = 0;
    while i < len
        invariant
            len == s@.len(),
            i <= len,
            forall|j: int| 0 <= j < i ==> #[trigger] is_header_text(s@.subrange(j, j + 1)),
        decreases len - i,
    {
        let c = s.get_char(i) as u32;
        if !(c == 0x09 || (c >= 0x20 && c != 0x7f)) {
            assert(!is_header_text(s@)) by {
                assert(s@[i as int] as u32 == c);
            }
            return false;
        }
        assert(s@.subrange(i as int, i + 1)[0] == s@[i as int]);
        i = i + 1;
    }
    assert forall|j: int| 0 <= j < s@.len() implies (#[trigger] (s@[j] as u32) == 0x09 || (0x20
        <= (s@[j] as u32) && (s@[j] as u32) != 0x7f)) by {
        assert(is_header_text(s@.subrange(j, j + 1)));
        assert(s@.subrange(j, j + 1)[0] == s@[j]);
    }
    true
}

} // verus!
