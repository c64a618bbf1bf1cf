//! Text helpers: UTF-8 text as the wire carries it, and decimal rendering of
//! integers for protocol messages.

use vstd::prelude::*;
use vstd::utf8::*;

verus! {

broadcast use vstd::seq::group_seq_axioms;

#[verifier::external_type_specification]
#[verifier::external_body]
pub struct ExUtf8Error(core::str::Utf8Error);

/// The error that `core::str::from_utf8` reports for `bytes` (its valid
/// prefix length and the length of the offending sequence, both fixed by
/// the bytes).
pub uninterp spec fn utf8_error_of(bytes: Seq<u8>) -> core::str::Utf8Error;

/// Reads wire text through `capnp::text::Reader::to_string`.
///
/// Trusted: the capnp source runs `core::str::from_utf8` on the bytes, which
/// succeeds exactly on valid UTF-8 and then holds the characters that the
/// bytes encode; on failure its error depends on the bytes alone, named
/// [`utf8_error_of`].
#[verifier::external_body]
pub(crate) fn text_to_string(bytes: &[u8]) -> (res: Result<String, core::str::Utf8Error>)
    ensures
        res is Ok <==> valid_utf8(bytes@),
        res matches Ok(s) ==> s@ == decode_utf8(bytes@),
        res matches Err(e) ==> e == utf8_error_of(bytes@),
{
    capnp::text::Reader(bytes).to_string()
}

/// The ASCII digit for `d` (meant for `d < 10`).
pub open spec fn digit_char(d: nat) -> char {
    ((48 + d) as u32) as char
}

/// The decimal rendering of `n`, most significant digit first, with no
/// leading zeros ("0" for zero).
pub open spec fn decimal(n: nat) -> Seq<char>
    decreases n,
{
    if n < 10 {
        seq![digit_char(n)]
    } else {
        decimal(n / 10).push(digit_char(n % 10))
    }
}

proof fn lemma_decimal_ascii(n: nat)
    ensures
        is_ascii_chars(decimal(n)),
        decimal(n).len() >= 1,
    decreases n,
{
    if n >= 10 {
        lemma_decimal_ascii(n / 10);
    }
}

/// The ASCII bytes of a character sequence (meant for ASCII text).
pub open spec fn ascii_bytes(chars: Seq<char>) -> Seq<u8> {
    chars.map_values(|c: char| c as u8)
}

fn push_decimal(n: u64, out: &mut Vec<u8>)
    ensures
        final(out)@ == old(out)@ + ascii_bytes(decimal(n as nat)),
    decreases n,
{
    if n >= 10 {
        push_decimal(n / 10, out);
    }
    let d: u64 = n % 10;
    let ghost before = out@;
    out.push((48 + d) as u8);
    proof {
        let c = digit_char(d as nat);
        assert(c as u8 == (48 + d) as u8);
        if n >= 10 {
            assert(ascii_bytes(decimal(n as nat)) =~= ascii_bytes(decimal((n / 10) as nat)).push(
                c as u8,
            ));
        } else {
            assert(ascii_bytes(decimal(n as nat)) =~= seq![c as u8]);
        }
        assert(out@ =~= old(out)@ + ascii_bytes(decimal(n as nat)));
    }
}

/// Renders `n` in decimal.
pub fn u64_to_decimal(n: u64) -> (s: String)
    ensures
        s@ == decimal(n as nat),
{
    let mut bytes: Vec<u8> = Vec::new();
    push_decimal(n, &mut bytes);
    proof {
        let ds = decimal(n as nat);
        lemma_decimal_ascii(n as nat);
        is_ascii_chars_encode_utf8(ds);
        assert(bytes@ =~= encode_utf8(ds));
        encode_utf8_valid_utf8(ds);
        encode_utf8_decode_utf8(ds);
    }
    match text_to_string(bytes.as_slice()) {
        Ok(s) => s,
        Err(_) => {
            proof {
                assert(false);
            }
            String::new()
        },
    }
}

} // verus!
